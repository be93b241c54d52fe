use vstd::prelude::*;
use chrono::{Datelike, Timelike};
use crate::text::push_all;

verus! {

/// A local calendar date and wall-clock time, to the minute.
#[derive(Clone, Copy, Debug)]
pub struct PrintStamp {
    pub year: i32,
    pub month: u32,
    pub day: u32,
    pub hour: u32,
    pub minute: u32,
}

impl PrintStamp {
    /// A month of the year, a day of the month, a 24-hour hour and a minute.
    pub open spec fn wf(&self) -> bool {
        &&& 1 <= self.month <= 12
        &&& 1 <= self.day <= 31
        &&& self.hour <= 23
        &&& self.minute <= 59
    }
}

/// The decimal digit for `d`.
pub open spec fn digit(d: nat) -> char {
    (d + 48) as char
}

/// The decimal numeral of `n`, without leading zeros.
pub open spec fn decimal(n: nat) -> Seq<char>
    decreases n,
{
    if n < 10 {
        seq![digit(n)]
    } else {
        decimal(n / 10).push(digit(n % 10))
    }
}

/// The numeral of `n` left-padded with zeros to at least `w` digits.
pub open spec fn zero_padded(n: nat, w: nat) -> Seq<char> {
    let d = decimal(n);
    Seq::new((if d.len() < w { w - d.len() } else { 0 }) as nat, |i: int| '0') + d
}

/// A year as `%Y` writes it: four digits within 0..=9999, otherwise a sign
/// followed by at least four digits.
pub open spec fn year_text(y: int) -> Seq<char> {
    if 0 <= y <= 9999 {
        zero_padded(y as nat, 4)
    } else if y > 9999 {
        seq!['+'] + zero_padded(y as nat, 4)
    } else {
        seq!['-'] + zero_padded((-y) as nat, 4)
    }
}

/// `DD/MM/YYYY`.
pub open spec fn date_text(s: PrintStamp) -> Seq<char> {
    zero_padded(s.day as nat, 2) + seq!['/'] + zero_padded(s.month as nat, 2) + seq!['/']
        + year_text(s.year as int)
}

/// `HH:MM`, on a 24-hour clock.
pub open spec fn time_text(s: PrintStamp) -> Seq<char> {
    zero_padded(s.hour as nat, 2) + seq![':'] + zero_padded(s.minute as nat, 2)
}

/// `Printed DD/MM/YYYY at HH:MM`.
pub open spec fn stamp_line(s: PrintStamp) -> Seq<char> {
    "Printed "@ + date_text(s) + " at "@ + time_text(s)
}

/// Whether `c` is an ASCII decimal digit.
pub open spec fn is_digit(c: char) -> bool {
    '0' <= c <= '9'
}

/// Whether `t` reads `Printed DD/MM/YYYY at HH:MM`, each letter of the pattern
/// other than the fixed text standing for one decimal digit.
pub open spec fn is_stamp_shape(t: Seq<char>) -> bool {
    let p = "Printed "@;
    &&& t.len() == 27
    &&& t.take(8) == p
    &&& is_digit(t[8]) && is_digit(t[9]) && t[10] == '/'
    &&& is_digit(t[11]) && is_digit(t[12]) && t[13] == '/'
    &&& is_digit(t[14]) && is_digit(t[15]) && is_digit(t[16]) && is_digit(t[17])
    &&& t.subrange(18, 22) == " at "@
    &&& is_digit(t[22]) && is_digit(t[23]) && t[24] == ':'
    &&& is_digit(t[25]) && is_digit(t[26])
}

proof fn lemma_decimal_digits(n: nat)
    ensures
        decimal(n).len() >= 1,
        n < 10 ==> decimal(n).len() == 1,
        10 <= n < 100 ==> decimal(n).len() == 2,
        100 <= n < 1000 ==> decimal(n).len() == 3,
        1000 <= n < 10000 ==> decimal(n).len() == 4,
        forall|i: int| 0 <= i < decimal(n).len() ==> is_digit(#[trigger] decimal(n)[i]),
    decreases n,
{
    if n >= 10 {
        lemma_decimal_digits(n / 10);
    }
}

proof fn lemma_zero_padded_digits(n: nat, w: nat)
    requires
        n < 10000,
        w <= 4,
        n < 100 || w == 4,
    ensures
        zero_padded(n, w).len() == w || (w < 2 && zero_padded(n, w).len() <= 2),
        n < 100 && w == 2 ==> zero_padded(n, w).len() == 2,
        w == 4 ==> zero_padded(n, w).len() == 4,
        forall|i: int| 0 <= i < zero_padded(n, w).len() ==> is_digit(#[trigger] zero_padded(n, w)[i]),
{
    lemma_decimal_digits(n);
    let d = decimal(n);
    let z = Seq::new((if d.len() < w { w - d.len() } else { 0 }) as nat, |i: int| '0');
    assert forall|i: int| 0 <= i < zero_padded(n, w).len() implies is_digit(
        #[trigger] zero_padded(n, w)[i],
    ) by {
        if i >= z.len() {
            assert(zero_padded(n, w)[i] == d[i - z.len()]);
        }
    }
}

/// A stamp whose year has four digits reads `Printed DD/MM/YYYY at HH:MM`.
pub proof fn stamp_line_shape(s: PrintStamp)
    requires
        s.wf(),
        0 <= s.year <= 9999,
    ensures
        is_stamp_shape(stamp_line(s)),
{
    reveal_strlit("Printed ");
    reveal_strlit(" at ");
    lemma_zero_padded_digits(s.day as nat, 2);
    lemma_zero_padded_digits(s.month as nat, 2);
    lemma_zero_padded_digits(s.year as nat, 4);
    lemma_zero_padded_digits(s.hour as nat, 2);
    lemma_zero_padded_digits(s.minute as nat, 2);
    let t = stamp_line(s);
    let dd = zero_padded(s.day as nat, 2);
    let mm = zero_padded(s.month as nat, 2);
    let yy = zero_padded(s.year as nat, 4);
    let hh = zero_padded(s.hour as nat, 2);
    let mi = zero_padded(s.minute as nat, 2);
    assert(t =~= "Printed "@ + dd + seq!['/'] + mm + seq!['/'] + yy + " at "@ + hh + seq![':'] + mi);
    assert(t.take(8) =~= "Printed "@);
    assert(t.subrange(18, 22) =~= " at "@);
    assert(t[8] == dd[0] && t[9] == dd[1]);
    assert(t[11] == mm[0] && t[12] == mm[1]);
    assert(t[14] == yy[0] && t[15] == yy[1] && t[16] == yy[2] && t[17] == yy[3]);
    assert(t[22] == hh[0] && t[23] == hh[1]);
    assert(t[25] == mi[0] && t[26] == mi[1]);
}

/// Appends the decimal numeral of `n`.
fn push_decimal(r: &mut Vec<char>, n: u32)
    ensures
        final(r)@ == old(r)@ + decimal(n as nat),
    decreases n,
{
    if n >= 10 {
        push_decimal(r, n / 10);
    }
    let d: u32 = n % 10;
    r.push(char_of_digit(d));
}

/// The character of the decimal digit `d`.
fn char_of_digit(d: u32) -> (c: char)
    requires
        d < 10,
    ensures
        c == digit(d as nat),
{
    if d == 0 { '0' } else if d == 1 { '1' } else if d == 2 { '2' } else if d == 3 { '3' }
    else if d == 4 { '4' } else if d == 5 { '5' } else if d == 6 { '6' } else if d == 7 { '7' }
    else if d == 8 { '8' } else { '9' }
}

/// Appends the numeral of `n`, left-padded with zeros to at least `w` digits.
fn push_zero_padded(r: &mut Vec<char>, n: u32, w: usize)
    ensures
        final(r)@ == old(r)@ + zero_padded(n as nat, w as nat),
{
    let mut d: Vec<char> = Vec::new();
    push_decimal(&mut d, n);
    assert(d@ == decimal(n as nat));
    let mut k: usize = d.len();
    let ghost start = r@;
    while k < w
        invariant
            d@ == decimal(n as nat),
            d@.len() <= k <= w || (k == d@.len() && k >= w),
            r@ == start + Seq::new((k - d@.len()) as nat, |i: int| '0'),
        decreases w - k,
    {
        r.push('0');
        k = k + 1;
        assert(r@ =~= start + Seq::new((k - d@.len()) as nat, |i: int| '0'));
    }
    push_all(r, &d);
    assert(r@ =~= start + zero_padded(n as nat, w as nat));
}

/// Appends the year as `%Y` writes it.
fn push_year(r: &mut Vec<char>, y: i32)
    ensures
        final(r)@ == old(r)@ + year_text(y as int),
{
    let ghost start = r@;
    if 0 <= y && y <= 9999 {
        push_zero_padded(r, y as u32, 4);
    } else if y > 9999 {
        r.push('+');
        push_zero_padded(r, y as u32, 4);
        assert(r@ =~= start + year_text(y as int));
    } else {
        r.push('-');
        let a: u32 = if y == i32::MIN { 2147483648u32 } else { (-y) as u32 };
        push_zero_padded(r, a, 4);
        assert(r@ =~= start + year_text(y as int));
    }
}

/// Appends `Printed DD/MM/YYYY at HH:MM` for the stamp.
pub fn push_stamp_line(r: &mut Vec<char>, s: &PrintStamp)
    ensures
        final(r)@ == old(r)@ + stamp_line(*s),
{
    let ghost start = r@;
    push_all(r, &crate::text::to_chars("Printed "));
    push_zero_padded(r, s.day, 2);
    r.push('/');
    push_zero_padded(r, s.month, 2);
    r.push('/');
    push_year(r, s.year);
    push_all(r, &crate::text::to_chars(" at "));
    push_zero_padded(r, s.hour, 2);
    r.push(':');
    push_zero_padded(r, s.minute, 2);
    assert(r@ =~= start + stamp_line(*s));
}

/// The local date and time now.
/// Relies on std's `SystemTime::now` for the instant, on chrono's
/// `From<SystemTime> for DateTime<Local>`, which also takes instants before
/// 1970, and on chrono's `Datelike` and `Timelike` accessors for the month
/// (1 to 12), the day (1 to 31), the hour (0 to 23) and the minute (0 to 59).
#[verifier::external_body]
pub(crate) fn local_now() -> (s: PrintStamp)
    ensures
        s.wf(),
{
    let now = chrono::DateTime::<chrono::Local>::from(std::time::SystemTime::now());
    PrintStamp {
        year: now.year(),
        month: now.month(),
        day: now.day(),
        hour: now.hour(),
        minute: now.minute(),
    }
}

} // verus!
