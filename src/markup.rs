use vstd::prelude::*;
use crate::stamp::{local_now, push_stamp_line, stamp_line, PrintStamp};
use crate::text::{
    char_views, lines_of, push_all, replace_all, replace_chars, split_lines, string_of,
    to_chars, trim, trimmed,
};

verus! {

/// Resets the printer.
pub open spec fn init_code() -> Seq<char> {
    "\x1B\x40"@
}

/// Double width and height.
pub open spec fn double_size_code() -> Seq<char> {
    "\x1B\x21\x30"@
}

/// Normal width and height.
pub open spec fn normal_size_code() -> Seq<char> {
    "\x1B\x21\x00"@
}

/// Centred text.
pub open spec fn center_code() -> Seq<char> {
    "\x1B\x61\x01"@
}

/// Text aligned to the left, the printer's default.
pub open spec fn left_code() -> Seq<char> {
    "\x1B\x61\x00"@
}

/// Text aligned to the right.
pub open spec fn right_code() -> Seq<char> {
    "\x1B\x61\x02"@
}

/// Emphasis on.
pub open spec fn bold_on_code() -> Seq<char> {
    "\x1B\x45\x01"@
}

/// Emphasis off.
pub open spec fn bold_off_code() -> Seq<char> {
    "\x1B\x45\x00"@
}

/// Cuts the paper.
pub open spec fn cut_code() -> Seq<char> {
    "\x1D\x56\x41\x00"@
}

/// The tag table, in the order in which its rules apply to each line: the
/// alignment tags, then the combined emphasis-and-size tags before the single
/// ones, then `<cut>`, then `<divider>`, which is removed.
pub open spec fn markup_rules() -> Seq<(Seq<char>, Seq<char>)> {
    seq![
        ("<center>"@, center_code()),
        ("</center>"@, left_code()),
        ("<right>"@, right_code()),
        ("</right>"@, left_code()),
        ("<left>"@, left_code()),
        ("<bold><large>"@, bold_on_code() + double_size_code()),
        ("</large></bold>"@, normal_size_code() + bold_off_code()),
        ("<large>"@, double_size_code()),
        ("</large>"@, normal_size_code()),
        ("<bold>"@, bold_on_code()),
        ("</bold>"@, bold_off_code()),
        ("<cut>"@, cut_code()),
        ("<divider>"@, Seq::empty()),
    ]
}

/// `s` after each rule of `rules`, in order, has replaced every occurrence of
/// its pattern.
pub open spec fn apply_rules(s: Seq<char>, rules: Seq<(Seq<char>, Seq<char>)>) -> Seq<char>
    decreases rules.len(),
{
    if rules.len() == 0 {
        s
    } else {
        replace_all(apply_rules(s, rules.drop_last()), rules.last().0, rules.last().1)
    }
}

/// One body line as printed: its tags replaced, then a line feed.
pub open spec fn render_line(line: Seq<char>) -> Seq<char> {
    apply_rules(line, markup_rules()).push('\n')
}

/// The printed lines, one after the other.
pub open spec fn render_lines(lines: Seq<Seq<char>>) -> Seq<char>
    decreases lines.len(),
{
    if lines.len() == 0 {
        Seq::empty()
    } else {
        render_lines(lines.drop_last()) + render_line(lines.last())
    }
}

/// `content` with each ellipsis character written as three full stops.
pub open spec fn expand_ellipsis(content: Seq<char>) -> Seq<char> {
    replace_all(content, "\u{2026}"@, "..."@)
}

/// The title in double size on a line of its own, or nothing for a blank title.
pub open spec fn title_block(title: Seq<char>) -> Seq<char> {
    if trimmed(title).len() == 0 {
        Seq::empty()
    } else {
        double_size_code() + trimmed(title) + normal_size_code() + seq!['\n']
    }
}

/// Printer reset, three blank lines, the title block, and the stamp line
/// followed by two line feeds.
pub open spec fn header(title: Seq<char>, stamp: PrintStamp) -> Seq<char> {
    init_code() + seq!['\n', '\n', '\n'] + title_block(title) + stamp_line(stamp) + seq![
        '\n',
        '\n',
    ]
}

/// Three blank lines and a paper cut.
pub open spec fn footer() -> Seq<char> {
    seq!['\n', '\n', '\n'] + cut_code()
}

/// The body: each line of the content, its ellipses expanded, as printed.
pub open spec fn body(content: Seq<char>) -> Seq<char> {
    render_lines(lines_of(expand_ellipsis(content)))
}

/// The whole stream for a note printed at `stamp`.
pub open spec fn compiled(content: Seq<char>, title: Seq<char>, stamp: PrintStamp) -> Seq<char> {
    header(title, stamp) + body(content) + footer()
}

/// One rule of the table, its pattern and its replacement.
fn rule(pat: &str, rep: &str) -> (r: (Vec<char>, Vec<char>))
    ensures
        r.0@ == pat@,
        r.1@ == rep@,
{
    (to_chars(pat), to_chars(rep))
}

/// The tag table.
fn rule_table() -> (t: Vec<(Vec<char>, Vec<char>)>)
    ensures
        t@.len() == markup_rules().len(),
        forall|i: int|
            0 <= i < t@.len() ==> (#[trigger] t@[i]).0@ == markup_rules()[i].0 && t@[i].1@
                == markup_rules()[i].1 && t@[i].0@.len() > 0,
{
    proof {
        reveal_strlit("<center>");
        reveal_strlit("</center>");
        reveal_strlit("<right>");
        reveal_strlit("</right>");
        reveal_strlit("<left>");
        reveal_strlit("<bold><large>");
        reveal_strlit("</large></bold>");
        reveal_strlit("<large>");
        reveal_strlit("</large>");
        reveal_strlit("<bold>");
        reveal_strlit("</bold>");
        reveal_strlit("<cut>");
        reveal_strlit("<divider>");
        reveal_strlit("");
    }
    let mut t: Vec<(Vec<char>, Vec<char>)> = Vec::new();
    t.push(rule("<center>", "\x1B\x61\x01"));
    t.push(rule("</center>", "\x1B\x61\x00"));
    t.push(rule("<right>", "\x1B\x61\x02"));
    t.push(rule("</right>", "\x1B\x61\x00"));
    t.push(rule("<left>", "\x1B\x61\x00"));
    let (p, mut r) = rule("<bold><large>", "\x1B\x45\x01");
    push_all(&mut r, &to_chars("\x1B\x21\x30"));
    t.push((p, r));
    let (p, mut r) = rule("</large></bold>", "\x1B\x21\x00");
    push_all(&mut r, &to_chars("\x1B\x45\x00"));
    t.push((p, r));
    t.push(rule("<large>", "\x1B\x21\x30"));
    t.push(rule("</large>", "\x1B\x21\x00"));
    t.push(rule("<bold>", "\x1B\x45\x01"));
    t.push(rule("</bold>", "\x1B\x45\x00"));
    t.push(rule("<cut>", "\x1D\x56\x41\x00"));
    t.push(rule("<divider>", ""));
    t
}

/// Replaces the tags of one line by their control codes, rule by rule.
pub fn apply_markup(line: &Vec<char>) -> (r: Vec<char>)
    ensures
        r@ == apply_rules(line@, markup_rules()),
{
    let table = rule_table();
    let mut cur: Vec<char> = line.clone();
    let mut k: usize = 0;
    assert(markup_rules().take(0) =~= Seq::<(Seq<char>, Seq<char>)>::empty());
    while k < table.len()
        invariant
            k <= table@.len(),
            table@.len() == markup_rules().len(),
            forall|i: int|
                0 <= i < table@.len() ==> (#[trigger] table@[i]).0@ == markup_rules()[i].0
                    && table@[i].1@ == markup_rules()[i].1 && table@[i].0@.len() > 0,
            cur@ == apply_rules(line@, markup_rules().take(k as int)),
        decreases table@.len() - k,
    {
        let ghost prev = markup_rules().take(k as int);
        cur = replace_chars(&cur, &table[k].0, &table[k].1);
        k = k + 1;
        assert(markup_rules().take(k as int).drop_last() =~= prev);
    }
    assert(markup_rules().take(k as int) =~= markup_rules());
    cur
}

/// Appends one body line as printed.
fn push_line(out: &mut Vec<char>, line: &Vec<char>)
    ensures
        final(out)@ == old(out)@ + render_line(line@),
{
    let done = apply_markup(line);
    push_all(out, &done);
    out.push('\n');
    assert(final(out)@ =~= old(out)@ + render_line(line@));
}

proof fn lemma_render_push(lines: Seq<Seq<char>>, l: Seq<char>)
    ensures
        render_lines(lines.push(l)) == render_lines(lines) + render_line(l),
{
    assert(lines.push(l).drop_last() =~= lines);
}

/// Appends the body of `content`: each of its lines, ellipses expanded, as printed.
fn push_body(out: &mut Vec<char>, content: &Vec<char>)
    ensures
        final(out)@ == old(out)@ + body(content@),
{
    proof {
        reveal_strlit("\u{2026}");
    }
    let expanded = replace_chars(content, &to_chars("\u{2026}"), &to_chars("..."));
    let lines = split_lines(&expanded);
    let ghost start = out@;
    let ghost all = char_views(lines@);
    let mut k: usize = 0;
    assert(all.take(0) =~= Seq::<Seq<char>>::empty());
    while k < lines.len()
        invariant
            k <= lines@.len(),
            all == char_views(lines@),
            out@ == start + render_lines(all.take(k as int)),
        decreases lines@.len() - k,
    {
        proof {
            lemma_render_push(all.take(k as int), lines@[k as int]@);
            assert(all.take(k as int).push(lines@[k as int]@) =~= all.take(k + 1));
        }
        push_line(out, &lines[k]);
        k = k + 1;
        assert(out@ =~= start + render_lines(all.take(k as int)));
    }
    assert(all.take(k as int) =~= all);
}

/// The printer stream for a note printed at `stamp`: a printer reset and three
/// blank lines; the trimmed title in double size, unless it is blank; the
/// stamp line and a blank line; each line of the content with its tags
/// replaced; three blank lines and a paper cut. `width` is not used.
pub fn compile_at(content: &str, width: u32, title: &str, stamp: &PrintStamp) -> (r: String)
    ensures
        r@ == compiled(content@, title@, *stamp),
{
    let mut out: Vec<char> = to_chars("\x1B\x40");
    out.push('\n');
    out.push('\n');
    out.push('\n');
    let t = trim(&to_chars(title));
    if t.len() > 0 {
        push_all(&mut out, &to_chars("\x1B\x21\x30"));
        push_all(&mut out, &t);
        push_all(&mut out, &to_chars("\x1B\x21\x00"));
        out.push('\n');
    }
    push_stamp_line(&mut out, stamp);
    out.push('\n');
    out.push('\n');
    let ghost head = out@;
    assert(head =~= header(title@, *stamp));
    push_body(&mut out, &to_chars(content));
    out.push('\n');
    out.push('\n');
    out.push('\n');
    push_all(&mut out, &to_chars("\x1D\x56\x41\x00"));
    assert(out@ =~= compiled(content@, title@, *stamp));
    string_of(&out)
}

/// The printer stream for a note, stamped with the local date and time now.
pub fn convert_markup_to_escpos(content: &str, width: u32, title: &str) -> (r: String)
    ensures
        exists|s: PrintStamp| s.wf() && r@ == compiled(content@, title@, s),
{
    let stamp = local_now();
    compile_at(content, width, title, &stamp)
}

} // verus!
