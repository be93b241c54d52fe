use note_printer::markup::{compile_at, convert_markup_to_escpos};
use note_printer::stamp::PrintStamp;

const INIT: &str = "\x1B\x40";
const DOUBLE: &str = "\x1B\x21\x30";
const NORMAL: &str = "\x1B\x21\x00";
const CENTER: &str = "\x1B\x61\x01";
const LEFT: &str = "\x1B\x61\x00";
const RIGHT: &str = "\x1B\x61\x02";
const BOLD_ON: &str = "\x1B\x45\x01";
const BOLD_OFF: &str = "\x1B\x45\x00";
const CUT: &str = "\x1D\x56\x41\x00";

fn stamp() -> PrintStamp {
    PrintStamp { year: 2024, month: 3, day: 5, hour: 9, minute: 7 }
}

const STAMP: &str = "Printed 05/03/2024 at 09:07";

fn frame(title_block: &str, body: &str) -> String {
    format!("{INIT}\n\n\n{title_block}{STAMP}\n\n{body}\n\n\n{CUT}")
}

#[test]
fn empty_note_is_the_bare_skeleton() {
    let out = compile_at("", 40, "", &stamp());
    assert_eq!(out, format!("{INIT}\n\n\n{STAMP}\n\n\n\n\n{CUT}"));
}

#[test]
fn centred_line_with_title() {
    let out = compile_at("<center>Hi</center>", 40, "Receipt", &stamp());
    let expected = frame(
        &format!("{DOUBLE}Receipt{NORMAL}\n"),
        &format!("{CENTER}Hi{LEFT}\n"),
    );
    assert_eq!(out, expected);
}

#[test]
fn output_starts_with_reset_and_three_line_feeds() {
    for content in ["", "abc", "<cut>\n<bold>x</bold>"] {
        let out = compile_at(content, 32, "T", &stamp());
        assert!(out.starts_with(&format!("{INIT}\n\n\n")));
    }
}

#[test]
fn title_is_trimmed_and_in_double_size() {
    let out = compile_at("", 40, "  Shopping list \t", &stamp());
    assert!(out.starts_with(&format!("{INIT}\n\n\n{DOUBLE}Shopping list{NORMAL}\n{STAMP}")));
}

#[test]
fn blank_title_is_left_out() {
    let out = compile_at("x", 40, " \t\u{3000} ", &stamp());
    assert_eq!(out, frame("", "x\n"));
    assert!(!out.contains(DOUBLE));
}

#[test]
fn stamp_line_has_day_month_year_and_24_hour_time() {
    let s = PrintStamp { year: 1999, month: 12, day: 31, hour: 23, minute: 59 };
    let out = compile_at("", 40, "", &s);
    assert!(out.contains("Printed 31/12/1999 at 23:59\n\n"));
}

#[test]
fn stamp_year_padding_and_sign() {
    let s = PrintStamp { year: 987, month: 1, day: 2, hour: 0, minute: 0 };
    assert!(compile_at("", 40, "", &s).contains("Printed 02/01/0987 at 00:00"));
    let s = PrintStamp { year: 10000, month: 1, day: 2, hour: 0, minute: 0 };
    assert!(compile_at("", 40, "", &s).contains("Printed 02/01/+10000 at 00:00"));
    let s = PrintStamp { year: -5, month: 1, day: 2, hour: 0, minute: 0 };
    assert!(compile_at("", 40, "", &s).contains("Printed 02/01/-0005 at 00:00"));
}

#[test]
fn ellipsis_prints_as_three_full_stops() {
    let a = compile_at("Wait\u{2026} what", 40, "N", &stamp());
    let b = compile_at("Wait... what", 40, "N", &stamp());
    assert_eq!(a, b);
    assert_eq!(a, frame(&format!("{DOUBLE}N{NORMAL}\n"), "Wait... what\n"));
}

#[test]
fn combined_bold_large_tags_take_precedence() {
    let out = compile_at("<bold><large>X</large></bold>", 40, "", &stamp());
    let expected = frame("", &format!("{BOLD_ON}{DOUBLE}X{NORMAL}{BOLD_OFF}\n"));
    assert_eq!(out, expected);
    let nested = compile_at("<large><bold>X</bold></large>", 40, "", &stamp());
    assert_eq!(nested, frame("", &format!("{DOUBLE}{BOLD_ON}X{BOLD_OFF}{NORMAL}\n")));
    assert_ne!(out, nested);
}

#[test]
fn divider_disappears() {
    let out = compile_at("ab<divider>cd\n<divider>", 40, "", &stamp());
    assert_eq!(out, frame("", "abcd\n\n"));
    assert!(!out.contains("divider"));
}

#[test]
fn cut_in_body_gives_two_cuts() {
    let out = compile_at("one\n<cut>\ntwo", 40, "", &stamp());
    assert_eq!(out, frame("", &format!("one\n{CUT}\ntwo\n")));
    assert_eq!(out.matches(CUT).count(), 2);
    assert!(out.ends_with(&format!("\n\n\n{CUT}")));
}

#[test]
fn alignment_tags() {
    let out = compile_at("<right>R</right>\n<left>L", 40, "", &stamp());
    assert_eq!(out, frame("", &format!("{RIGHT}R{LEFT}\n{LEFT}L\n")));
}

#[test]
fn single_emphasis_tags() {
    let out = compile_at("<bold>b</bold> <large>l</large>", 40, "", &stamp());
    assert_eq!(out, frame("", &format!("{BOLD_ON}b{BOLD_OFF} {DOUBLE}l{NORMAL}\n")));
}

#[test]
fn tags_are_case_sensitive_and_unknown_tags_stay() {
    let out = compile_at("<CENTER>x<centre>", 40, "", &stamp());
    assert_eq!(out, frame("", "<CENTER>x<centre>\n"));
}

#[test]
fn lines_split_on_lf_and_crlf_and_keep_empty_lines() {
    let out = compile_at("a\r\nb\n\nc\n", 40, "", &stamp());
    assert_eq!(out, frame("", "a\nb\n\nc\n"));
}

#[test]
fn width_does_not_wrap() {
    let long = "x".repeat(100);
    let a = compile_at(&long, 10, "", &stamp());
    let b = compile_at(&long, 80, "", &stamp());
    assert_eq!(a, b);
    assert_eq!(a, frame("", &format!("{long}\n")));
}

#[test]
fn local_clock_stamp_has_the_printed_pattern() {
    let out = convert_markup_to_escpos("<center>Hi</center>", 40, "Receipt");
    let head = format!("{INIT}\n\n\n{DOUBLE}Receipt{NORMAL}\n");
    assert!(out.starts_with(&head));
    let line: Vec<char> = out[head.len()..].chars().take(27).collect();
    let line: String = line.into_iter().collect();
    assert!(line.starts_with("Printed "));
    let b = line.as_bytes();
    for i in [8, 9, 11, 12, 14, 15, 16, 17, 22, 23, 25, 26] {
        assert!(b[i].is_ascii_digit(), "{line}");
    }
    assert_eq!(b[10], b'/');
    assert_eq!(b[13], b'/');
    assert_eq!(&line[18..22], " at ");
    assert_eq!(b[24], b':');
    assert!(out.ends_with(&format!("\n\n{CENTER}Hi{LEFT}\n\n\n\n{CUT}")));
}

#[test]
fn expanding_ellipses_first_changes_nothing() {
    let c = "a\u{2026}b\n<center>\u{2026}\u{2026}</center>";
    let direct = compile_at(c, 40, "T", &stamp());
    let pre = compile_at(&c.replace('\u{2026}', "..."), 40, "T", &stamp());
    assert_eq!(direct, pre);
    let after_stamp = &direct[direct.find(STAMP).unwrap()..];
    assert!(!after_stamp.contains('\u{2026}'));
    assert!(direct.contains("a...b\n"));
}

#[test]
fn cut_codes_count_body_cuts_plus_one() {
    let out = compile_at("<cut>x<cut>\n<cut>", 40, "", &stamp());
    assert_eq!(out.matches('\x1D').count(), 4);
    assert!(out.ends_with(&format!("\n\n\n{CUT}")));
}
