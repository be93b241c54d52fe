use vstd::prelude::*;
use crate::text::{
    char_views, holds_at, is_space, lemma_views_push, lines_of, occurs_at, space, split_lines,
    string_of, to_chars,
};

verus! {

/// The contents of a sequence of strings.
pub open spec fn string_views(v: Seq<String>) -> Seq<Seq<char>> {
    v.map_values(|x: String| x@)
}

/// Whether `s` begins with `p`.
pub open spec fn starts_with(s: Seq<char>, p: Seq<char>) -> bool {
    occurs_at(s, 0, p)
}

/// The words of `s` that a white-space character ends, and the text after
/// the last white space.
pub open spec fn word_scan(s: Seq<char>) -> (Seq<Seq<char>>, Seq<char>)
    decreases s.len(),
{
    if s.len() == 0 {
        (Seq::empty(), Seq::empty())
    } else {
        let (done, cur) = word_scan(s.drop_last());
        if is_space(s.last()) {
            if cur.len() > 0 {
                (done.push(cur), Seq::empty())
            } else {
                (done, Seq::empty())
            }
        } else {
            (done, cur.push(s.last()))
        }
    }
}

/// The words of `s`, as `str::split_whitespace` yields them: the non-empty
/// runs of characters between white space.
pub open spec fn words_of(s: Seq<char>) -> Seq<Seq<char>> {
    let (done, cur) = word_scan(s);
    if cur.len() > 0 {
        done.push(cur)
    } else {
        done
    }
}

/// What one line of `lpstat -p` names: the second word of a line that begins
/// with `printer`.
pub open spec fn lpstat_entry(line: Seq<char>) -> Seq<Seq<char>> {
    if starts_with(line, "printer"@) && words_of(line).len() > 1 {
        seq![words_of(line)[1]]
    } else {
        Seq::empty()
    }
}

/// What one line of `wmic printer get name /format:list` names: the rest of a
/// line that begins with `Name=`.
pub open spec fn wmic_entry(line: Seq<char>) -> Seq<Seq<char>> {
    if starts_with(line, "Name="@) {
        seq![line.skip(5)]
    } else {
        Seq::empty()
    }
}

/// The printers that the lines of `lpstat -p` name, in order.
pub open spec fn lpstat_printers(lines: Seq<Seq<char>>) -> Seq<Seq<char>>
    decreases lines.len(),
{
    if lines.len() == 0 {
        Seq::empty()
    } else {
        lpstat_printers(lines.drop_last()) + lpstat_entry(lines.last())
    }
}

/// The printers that the lines of `wmic` name, in order.
pub open spec fn wmic_printers(lines: Seq<Seq<char>>) -> Seq<Seq<char>>
    decreases lines.len(),
{
    if lines.len() == 0 {
        Seq::empty()
    } else {
        wmic_printers(lines.drop_last()) + wmic_entry(lines.last())
    }
}

/// The words of `s`.
pub fn split_words(s: &Vec<char>) -> (r: Vec<Vec<char>>)
    ensures
        char_views(r@) == words_of(s@),
{
    let mut done: Vec<Vec<char>> = Vec::new();
    let mut cur: Vec<char> = Vec::new();
    let mut i: usize = 0;
    assert(s@.take(0) =~= Seq::<char>::empty());
    assert(char_views(done@) =~= Seq::<Seq<char>>::empty());
    while i < s.len()
        invariant
            i <= s@.len(),
            char_views(done@) == word_scan(s@.take(i as int)).0,
            cur@ == word_scan(s@.take(i as int)).1,
        decreases s@.len() - i,
    {
        let c = s[i];
        assert(s@.take(i + 1).drop_last() =~= s@.take(i as int));
        if space(c) {
            if cur.len() > 0 {
                proof {
                    lemma_views_push(done@, cur);
                }
                done.push(cur);
            }
            cur = Vec::new();
        } else {
            cur.push(c);
        }
        i = i + 1;
    }
    assert(s@.take(i as int) =~= s@);
    if cur.len() > 0 {
        proof {
            lemma_views_push(done@, cur);
        }
        done.push(cur);
    }
    done
}

/// `s` from index `from` on.
fn tail_from(s: &Vec<char>, from: usize) -> (r: Vec<char>)
    requires
        from <= s@.len(),
    ensures
        r@ == s@.skip(from as int),
{
    let mut r: Vec<char> = Vec::new();
    let mut k: usize = from;
    while k < s.len()
        invariant
            from <= k <= s@.len(),
            r@ == s@.subrange(from as int, k as int),
        decreases s@.len() - k,
    {
        r.push(s[k]);
        k = k + 1;
        assert(r@ =~= s@.subrange(from as int, k as int));
    }
    assert(r@ =~= s@.skip(from as int));
    r
}

/// The printer names in the output of `lpstat -p`: the second word of each
/// line that begins with `printer`, in order.
pub fn printers_from_lpstat(output: &str) -> (r: Vec<String>)
    ensures
        string_views(r@) == lpstat_printers(lines_of(output@)),
{
    let lines = split_lines(&to_chars(output));
    let prefix = to_chars("printer");
    let mut r: Vec<String> = Vec::new();
    let mut k: usize = 0;
    assert(string_views(r@) =~= lpstat_printers(char_views(lines@).take(0)));
    while k < lines.len()
        invariant
            k <= lines@.len(),
            prefix@ == "printer"@,
            string_views(r@) == lpstat_printers(char_views(lines@).take(k as int)),
        decreases lines@.len() - k,
    {
        let ghost before = string_views(r@);
        let line = &lines[k];
        let ghost ls = char_views(lines@).take(k + 1);
        assert(ls.drop_last() =~= char_views(lines@).take(k as int));
        assert(ls.last() == line@);
        if holds_at(line, 0, &prefix) {
            let words = split_words(line);
            if words.len() > 1 {
                let name = string_of(&words[1]);
                r.push(name);
                assert(string_views(r@) =~= before + lpstat_entry(line@));
            } else {
                assert(lpstat_entry(line@) =~= Seq::<Seq<char>>::empty());
                assert(before + lpstat_entry(line@) =~= before);
            }
        } else {
            assert(lpstat_entry(line@) =~= Seq::<Seq<char>>::empty());
            assert(before + lpstat_entry(line@) =~= before);
        }
        k = k + 1;
    }
    assert(char_views(lines@).take(k as int) =~= char_views(lines@));
    r
}

/// The printer names in the output of `wmic printer get name /format:list`:
/// the rest of each line that begins with `Name=`, in order.
pub fn printers_from_wmic(output: &str) -> (r: Vec<String>)
    ensures
        string_views(r@) == wmic_printers(lines_of(output@)),
{
    let lines = split_lines(&to_chars(output));
    let prefix = to_chars("Name=");
    proof {
        reveal_strlit("Name=");
    }
    let mut r: Vec<String> = Vec::new();
    let mut k: usize = 0;
    assert(string_views(r@) =~= wmic_printers(char_views(lines@).take(0)));
    while k < lines.len()
        invariant
            k <= lines@.len(),
            prefix@ == "Name="@,
            prefix@.len() == 5,
            string_views(r@) == wmic_printers(char_views(lines@).take(k as int)),
        decreases lines@.len() - k,
    {
        let ghost before = string_views(r@);
        let line = &lines[k];
        let ghost ls = char_views(lines@).take(k + 1);
        assert(ls.drop_last() =~= char_views(lines@).take(k as int));
        assert(ls.last() == line@);
        if holds_at(line, 0, &prefix) {
            let name = string_of(&tail_from(line, 5));
            r.push(name);
            assert(string_views(r@) =~= before + wmic_entry(line@));
        } else {
            assert(wmic_entry(line@) =~= Seq::<Seq<char>>::empty());
            assert(before + wmic_entry(line@) =~= before);
        }
        k = k + 1;
    }
    assert(char_views(lines@).take(k as int) =~= char_views(lines@));
    r
}

} // verus!
