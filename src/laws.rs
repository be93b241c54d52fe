use vstd::prelude::*;
use crate::markup::{
    apply_rules, body, bold_off_code, bold_on_code, compiled, cut_code, double_size_code, expand_ellipsis, footer, init_code,
    markup_rules, normal_size_code, render_line, render_lines, title_block,
};
use crate::stamp::{is_stamp_shape, stamp_line, stamp_line_shape, PrintStamp};
use crate::text::{line_scan, lines_of, occurs_at, replace_all, strip_cr, trimmed};

verus! {

/// The reset code and the three blank lines that open every stream.
pub open spec fn opening() -> Seq<char> {
    init_code() + seq!['\n', '\n', '\n']
}

/// Every stream opens with the printer reset followed by three line feeds.
pub proof fn starts_with_reset(content: Seq<char>, title: Seq<char>, stamp: PrintStamp)
    ensures
        compiled(content, title, stamp).take(opening().len() as int) == opening(),
{
    let c = compiled(content, title, stamp);
    assert(c =~= opening() + (title_block(title) + stamp_line(stamp) + seq!['\n', '\n'] + body(
        content,
    ) + footer()));
    assert(c.take(opening().len() as int) =~= opening());
}

/// A title that is not blank comes right after the opening lines: the double
/// size code, the trimmed title, the normal size code, a line feed.
pub proof fn title_follows_opening(content: Seq<char>, title: Seq<char>, stamp: PrintStamp)
    requires
        trimmed(title).len() > 0,
    ensures
        ({
            let block = double_size_code() + trimmed(title) + normal_size_code() + seq!['\n'];
            compiled(content, title, stamp).subrange(
                opening().len() as int,
                (opening().len() + block.len()) as int,
            ) == block
        }),
{
    let block = double_size_code() + trimmed(title) + normal_size_code() + seq!['\n'];
    let c = compiled(content, title, stamp);
    let rest = stamp_line(stamp) + seq!['\n', '\n'] + body(content) + footer();
    assert(c =~= opening() + block + rest);
    assert(c.subrange(opening().len() as int, (opening().len() + block.len()) as int) =~= block);
}

/// A blank title prints nothing: the stamp line follows the opening lines.
pub proof fn blank_title_omitted(content: Seq<char>, title: Seq<char>, stamp: PrintStamp)
    requires
        trimmed(title).len() == 0,
    ensures
        compiled(content, title, stamp) == opening() + stamp_line(stamp) + seq!['\n', '\n']
            + body(content) + footer(),
{
    assert(compiled(content, title, stamp) =~= opening() + stamp_line(stamp) + seq!['\n', '\n']
        + body(content) + footer());
}

/// After the opening lines and the title block stands the stamp line, which
/// reads `Printed DD/MM/YYYY at HH:MM` for any year of four digits.
pub proof fn stamp_line_in_stream(content: Seq<char>, title: Seq<char>, stamp: PrintStamp)
    requires
        stamp.wf(),
        0 <= stamp.year <= 9999,
    ensures
        ({
            let at = (opening().len() + title_block(title).len()) as int;
            is_stamp_shape(compiled(content, title, stamp).subrange(at, at + 27))
        }),
{
    stamp_line_shape(stamp);
    let at = (opening().len() + title_block(title).len()) as int;
    let c = compiled(content, title, stamp);
    let rest = seq!['\n', '\n'] + body(content) + footer();
    assert(c =~= opening() + title_block(title) + stamp_line(stamp) + rest);
    assert(c.subrange(at, at + 27) =~= stamp_line(stamp));
}

/// Every stream ends with three line feeds and one paper cut.
pub proof fn ends_with_cut(content: Seq<char>, title: Seq<char>, stamp: PrintStamp)
    ensures
        ({
            let c = compiled(content, title, stamp);
            c.skip(c.len() - footer().len()) == seq!['\n', '\n', '\n'] + cut_code()
        }),
{
    let c = compiled(content, title, stamp);
    assert(c.skip(c.len() - footer().len()) =~= footer());
}

proof fn lemma_replace_concat_single(a: Seq<char>, b: Seq<char>, pat: Seq<char>, rep: Seq<char>)
    requires
        pat.len() == 1,
    ensures
        replace_all(a + b, pat, rep) == replace_all(a, pat, rep) + replace_all(b, pat, rep),
    decreases a.len(),
{
    if a.len() == 0 {
        assert(a + b =~= b);
        assert(replace_all(a, pat, rep) =~= Seq::<char>::empty());
        assert(Seq::<char>::empty() + replace_all(b, pat, rep) =~= replace_all(b, pat, rep));
    } else {
        let s = a + b;
        assert(s.take(1) =~= a.take(1));
        assert(s.skip(1) =~= a.skip(1) + b);
        assert(s[0] == a[0]);
        lemma_replace_concat_single(a.skip(1), b, pat, rep);
        if s.take(pat.len() as int) == pat {
            assert(rep + (replace_all(a.skip(1), pat, rep) + replace_all(b, pat, rep)) =~= (rep
                + replace_all(a.skip(1), pat, rep)) + replace_all(b, pat, rep));
        } else {
            assert(seq![s[0]] + (replace_all(a.skip(1), pat, rep) + replace_all(b, pat, rep))
                =~= (seq![a[0]] + replace_all(a.skip(1), pat, rep)) + replace_all(b, pat, rep));
        }
    }
}

proof fn lemma_ellipsis_forms()
    ensures
        expand_ellipsis("\u{2026}"@) == "..."@,
        expand_ellipsis("..."@) == "..."@,
{
    reveal_strlit("\u{2026}");
    reveal_strlit("...");
    let e = "\u{2026}"@;
    let d = "..."@;
    assert(e.take(1) =~= e);
    assert(e.skip(1) =~= Seq::<char>::empty());
    assert(replace_all(e.skip(1), e, d) =~= Seq::<char>::empty());
    assert(d + Seq::<char>::empty() =~= d);
    let s2 = d.skip(1);
    let s3 = s2.skip(1);
    let s4 = s3.skip(1);
    assert(s4 =~= Seq::<char>::empty());
    assert(d.take(1)[0] != e[0]);
    assert(s2.take(1)[0] != e[0]);
    assert(s3.take(1)[0] != e[0]);
    assert(seq![s3[0]] + replace_all(s4, e, d) =~= seq!['.']);
    assert(seq![s2[0]] + replace_all(s3, e, d) =~= seq!['.', '.']);
    assert(seq![d[0]] + replace_all(s2, e, d) =~= d);
}

/// An ellipsis character prints exactly as three full stops in its place.
pub proof fn ellipsis_as_full_stops(
    before: Seq<char>,
    after: Seq<char>,
    title: Seq<char>,
    stamp: PrintStamp,
)
    ensures
        compiled(before + "\u{2026}"@ + after, title, stamp) == compiled(
            before + "..."@ + after,
            title,
            stamp,
        ),
{
    reveal_strlit("\u{2026}");
    let e = "\u{2026}"@;
    let d = "..."@;
    lemma_ellipsis_forms();
    lemma_replace_concat_single(before + e, after, e, d);
    lemma_replace_concat_single(before, e, e, d);
    lemma_replace_concat_single(before + d, after, e, d);
    lemma_replace_concat_single(before, d, e, d);
    assert(expand_ellipsis(before + e + after) == expand_ellipsis(before + d + after));
}

/// Whether `s` holds no `<`, so that no tag can start in it.
pub open spec fn tag_free(s: Seq<char>) -> bool {
    forall|i: int| 0 <= i < s.len() ==> s[i] != '<'
}

proof fn lemma_no_occurrence(s: Seq<char>, pat: Seq<char>, rep: Seq<char>)
    requires
        pat.len() > 0,
        forall|i: int| !occurs_at(s, i, pat),
    ensures
        replace_all(s, pat, rep) == s,
    decreases s.len(),
{
    if s.len() > 0 {
        assert(!occurs_at(s, 0, pat));
        if pat.len() <= s.len() {
            assert(s.take(pat.len() as int) =~= s.subrange(0, pat.len() as int));
        }
        assert forall|i: int| !occurs_at(s.skip(1), i, pat) by {
            if occurs_at(s.skip(1), i, pat) {
                assert(s.subrange(i + 1, i + 1 + pat.len()) =~= s.skip(1).subrange(
                    i,
                    i + pat.len(),
                ));
                assert(occurs_at(s, i + 1, pat));
            }
        }
        lemma_no_occurrence(s.skip(1), pat, rep);
        assert(seq![s[0]] + s.skip(1) =~= s);
    }
}

proof fn lemma_rules_keep(s: Seq<char>, k: int)
    requires
        0 <= k <= markup_rules().len(),
        forall|j: int, i: int| 0 <= j < k ==> !#[trigger] occurs_at(s, i, markup_rules()[j].0),
        forall|j: int| 0 <= j < k ==> (#[trigger] markup_rules()[j].0).len() > 0,
    ensures
        apply_rules(s, markup_rules().take(k)) == s,
    decreases k,
{
    let rs = markup_rules().take(k);
    if k > 0 {
        assert(rs.drop_last() =~= markup_rules().take(k - 1));
        lemma_rules_keep(s, k - 1);
        let p = markup_rules()[k - 1].0;
        assert forall|i: int| !occurs_at(s, i, p) by {
            assert(!occurs_at(s, i, markup_rules()[k - 1].0));
        }
        lemma_no_occurrence(s, p, markup_rules()[k - 1].1);
    } else {
        assert(rs =~= Seq::<(Seq<char>, Seq<char>)>::empty());
    }
}

proof fn lemma_tags_start_with_lt()
    ensures
        forall|j: int|
            0 <= j < markup_rules().len() ==> (#[trigger] markup_rules()[j].0).len() >= 5
                && markup_rules()[j].0[0] == '<',
        forall|j: int| 0 <= j < 12 ==> (#[trigger] markup_rules()[j].0)[1] != 'd',
        markup_rules().len() == 13,
        markup_rules()[12].0 == "<divider>"@,
        markup_rules()[12].1 == Seq::<char>::empty(),
{
    reveal_strlit("<center>");
    reveal_strlit("</center>");
    reveal_strlit("<right>");
    reveal_strlit("</right>");
    reveal_strlit("<left>");
    reveal_strlit("<bold><large>");
    reveal_strlit("</large></bold>");
    reveal_strlit("<large>");
    reveal_strlit("</large>");
    reveal_strlit("<bold>");
    reveal_strlit("</bold>");
    reveal_strlit("<cut>");
    reveal_strlit("<divider>");
}

/// Removing `<divider>` from a line whose other text holds no tag: the line
/// prints as that text alone.
pub proof fn divider_removed(before: Seq<char>, after: Seq<char>)
    requires
        tag_free(before),
        tag_free(after),
    ensures
        render_line(before + "<divider>"@ + after) == (before + after).push('\n'),
{
    reveal_strlit("<divider>");
    lemma_tags_start_with_lt();
    let d = "<divider>"@;
    let s = before + d + after;
    let n = before.len();
    assert forall|j: int, i: int| 0 <= j < 12 implies !#[trigger] occurs_at(
        s,
        i,
        markup_rules()[j].0,
    ) by {
        let p = markup_rules()[j].0;
        if occurs_at(s, i, p) {
            assert(s.subrange(i, i + p.len())[0] == p[0]);
            assert(s[i] == '<');
            if i < n {
                assert(s[i] == before[i]);
            } else if i > n && i < n + 9 {
                assert(s[i] == d[i - n]);
            } else if i >= n + 9 {
                assert(s[i] == after[i - n - 9]);
            } else {
                assert(s.subrange(i, i + p.len())[1] == p[1]);
                assert(s[i + 1] == d[1]);
            }
        }
    }
    lemma_rules_keep(s, 12);
    assert(markup_rules().take(13).drop_last() =~= markup_rules().take(12));
    assert(markup_rules().take(13) =~= markup_rules());
    assert(apply_rules(s, markup_rules()) == replace_all(s, d, Seq::empty()));
    lemma_remove_between(before, after, d);
}

proof fn lemma_remove_between(before: Seq<char>, after: Seq<char>, d: Seq<char>)
    requires
        tag_free(before),
        tag_free(after),
        d.len() > 0,
        d[0] == '<',
    ensures
        replace_all(before + d + after, d, Seq::empty()) == before + after,
    decreases before.len(),
{
    let s = before + d + after;
    if before.len() == 0 {
        assert(s =~= d + after);
        assert(s.take(d.len() as int) =~= d);
        assert(s.skip(d.len() as int) =~= after);
        assert forall|i: int| !occurs_at(after, i, d) by {
            if occurs_at(after, i, d) {
                assert(after.subrange(i, i + d.len())[0] == d[0]);
            }
        }
        lemma_no_occurrence(after, d, Seq::empty());
        assert(Seq::<char>::empty() + after =~= before + after);
    } else {
        assert(s.take(d.len() as int)[0] == before[0]);
        assert(s.skip(1) =~= before.skip(1) + d + after);
        lemma_remove_between(before.skip(1), after, d);
        assert(seq![s[0]] + (before.skip(1) + after) =~= before + after);
    }
}

/// Whether the character `c` occurs nowhere in `s`.
pub open spec fn lacks(s: Seq<char>, c: char) -> bool {
    forall|i: int| 0 <= i < s.len() ==> s[i] != c
}

proof fn lemma_replace_lacks(s: Seq<char>, pat: Seq<char>, rep: Seq<char>, c: char)
    requires
        lacks(s, c),
        lacks(rep, c),
    ensures
        lacks(replace_all(s, pat, rep), c),
    decreases s.len(),
{
    if s.len() > 0 {
        if pat.len() > 0 && pat.len() <= s.len() && s.take(pat.len() as int) == pat {
            lemma_replace_lacks(s.skip(pat.len() as int), pat, rep, c);
        } else {
            lemma_replace_lacks(s.skip(1), pat, rep, c);
        }
    }
}

proof fn lemma_expand_lacks(s: Seq<char>)
    ensures
        lacks(expand_ellipsis(s), '\u{2026}'),
    decreases s.len(),
{
    reveal_strlit("\u{2026}");
    reveal_strlit("...");
    let e = "\u{2026}"@;
    if s.len() > 0 {
        lemma_expand_lacks(s.skip(1));
        if s.take(1) == e {
        } else {
            assert(s[0] != '\u{2026}') by {
                if s[0] == '\u{2026}' {
                    assert(s.take(1) =~= e);
                }
            }
        }
    }
}

proof fn lemma_expand_settled(s: Seq<char>)
    requires
        lacks(s, '\u{2026}'),
    ensures
        expand_ellipsis(s) == s,
{
    reveal_strlit("\u{2026}");
    let e = "\u{2026}"@;
    assert forall|i: int| !occurs_at(s, i, e) by {
        if occurs_at(s, i, e) {
            assert(s.subrange(i, i + 1)[0] == e[0]);
        }
    }
    lemma_no_occurrence(s, e, "..."@);
}

/// Writing the ellipses of the content as full stops before compiling
/// changes nothing.
pub proof fn ellipsis_expansion_settled(content: Seq<char>, title: Seq<char>, stamp: PrintStamp)
    ensures
        compiled(expand_ellipsis(content), title, stamp) == compiled(content, title, stamp),
{
    lemma_expand_lacks(content);
    lemma_expand_settled(expand_ellipsis(content));
}

proof fn lemma_line_scan_lacks(s: Seq<char>, c: char)
    requires
        lacks(s, c),
    ensures
        forall|k: int| 0 <= k < line_scan(s).0.len() ==> lacks(#[trigger] line_scan(s).0[k], c),
        lacks(line_scan(s).1, c),
    decreases s.len(),
{
    if s.len() > 0 {
        lemma_line_scan_lacks(s.drop_last(), c);
        let (done, cur) = line_scan(s.drop_last());
        assert(lacks(strip_cr(cur), c));
        if s.last() == '\n' {
            assert(forall|k: int|
                0 <= k < done.len() + 1 ==> #[trigger] done.push(strip_cr(cur))[k] == if k
                    < done.len() {
                    done[k]
                } else {
                    strip_cr(cur)
                });
        } else {
            assert(lacks(cur.push(s.last()), c));
        }
    }
}

proof fn lemma_rules_lack(s: Seq<char>, rules: Seq<(Seq<char>, Seq<char>)>, c: char)
    requires
        lacks(s, c),
        forall|j: int| 0 <= j < rules.len() ==> lacks(#[trigger] rules[j].1, c),
    ensures
        lacks(apply_rules(s, rules), c),
    decreases rules.len(),
{
    if rules.len() > 0 {
        lemma_rules_lack(s, rules.drop_last(), c);
        assert(lacks(rules[rules.len() - 1].1, c));
        lemma_replace_lacks(apply_rules(s, rules.drop_last()), rules.last().0, rules.last().1, c);
    }
}

proof fn lemma_codes_lack_ellipsis()
    ensures
        forall|j: int|
            0 <= j < markup_rules().len() ==> lacks(#[trigger] markup_rules()[j].1, '\u{2026}'),
        lacks(footer(), '\u{2026}'),
{
    reveal_strlit("\x1B\x61\x01");
    reveal_strlit("\x1B\x61\x00");
    reveal_strlit("\x1B\x61\x02");
    reveal_strlit("\x1B\x45\x01");
    reveal_strlit("\x1B\x45\x00");
    reveal_strlit("\x1B\x21\x30");
    reveal_strlit("\x1B\x21\x00");
    reveal_strlit("\x1D\x56\x41\x00");
    let m = markup_rules();
    assert forall|j: int| 0 <= j < m.len() implies lacks(#[trigger] m[j].1, '\u{2026}') by {
        let r = m[j].1;
        assert forall|i: int| 0 <= i < r.len() implies r[i] != '\u{2026}' by {
            if j == 5 {
                assert(r[i] == (bold_on_code() + double_size_code())[i]);
            } else if j == 6 {
                assert(r[i] == (normal_size_code() + bold_off_code())[i]);
            }
        }
    }
    let f = footer();
    assert forall|i: int| 0 <= i < f.len() implies f[i] != '\u{2026}' by {
        if i >= 3 {
            assert(f[i] == cut_code()[i - 3]);
        }
    }
}

proof fn lemma_render_lacks(lines: Seq<Seq<char>>)
    requires
        forall|k: int| 0 <= k < lines.len() ==> lacks(#[trigger] lines[k], '\u{2026}'),
    ensures
        lacks(render_lines(lines), '\u{2026}'),
    decreases lines.len(),
{
    if lines.len() > 0 {
        let init = lines.drop_last();
        assert forall|k: int| 0 <= k < init.len() implies lacks(#[trigger] init[k], '\u{2026}') by {
            assert(init[k] == lines[k]);
        }
        lemma_render_lacks(init);
        lemma_codes_lack_ellipsis();
        assert(lacks(lines[lines.len() - 1], '\u{2026}'));
        lemma_rules_lack(lines.last(), markup_rules(), '\u{2026}');
        let a = render_lines(init);
        let b = render_line(lines.last());
        assert(lacks(b, '\u{2026}'));
        assert forall|i: int| 0 <= i < (a + b).len() implies (a + b)[i] != '\u{2026}' by {
            if i >= a.len() {
                assert((a + b)[i] == b[i - a.len()]);
            }
        }
    }
}

/// After the stamp line the stream holds no ellipsis character: the body and
/// the footer lack it, whatever the content.
pub proof fn no_ellipsis_after_stamp(content: Seq<char>, title: Seq<char>, stamp: PrintStamp)
    ensures
        compiled(content, title, stamp) == crate::markup::header(title, stamp) + (body(content)
            + footer()),
        lacks(body(content) + footer(), '\u{2026}'),
{
    let n = expand_ellipsis(content);
    lemma_expand_lacks(content);
    lemma_line_scan_lacks(n, '\u{2026}');
    let (done, cur) = line_scan(n);
    let ls = lines_of(n);
    assert forall|k: int| 0 <= k < ls.len() implies lacks(#[trigger] ls[k], '\u{2026}') by {
        if k < done.len() {
            assert(ls[k] == done[k]);
        }
    }
    lemma_render_lacks(ls);
    lemma_codes_lack_ellipsis();
    let a = body(content);
    let b = footer();
    assert forall|i: int| 0 <= i < (a + b).len() implies (a + b)[i] != '\u{2026}' by {
        if i >= a.len() {
            assert((a + b)[i] == b[i - a.len()]);
        }
    }
    assert(compiled(content, title, stamp) =~= crate::markup::header(title, stamp) + (a + b));
}

} // verus!
