use time_cargo::timing::{join_line, match_times, report_line, ParseError};

fn as_floats(v: &[String]) -> Vec<f64> {
    v.iter().map(|s| s.parse::<f64>().unwrap()).collect()
}

#[test]
fn two_timing_lines_then_ok() {
    let v = match_times("time: 1.250 pass-a\ntime: 0.003 pass-b\nOK\n").unwrap();
    assert_eq!(v, vec!["1.250".to_string(), "0.003".to_string()]);
    assert_eq!(as_floats(&v), vec![1.250, 0.003]);
}

#[test]
fn missing_terminator_is_incomplete() {
    assert_eq!(match_times("time: 1.250 pass-a\n"), Err(ParseError::Incomplete));
}

#[test]
fn ok_alone_gives_no_timings() {
    assert_eq!(match_times("OK\n"), Ok(vec![]));
}

#[test]
fn garbage_then_ok_gives_no_timings() {
    assert_eq!(match_times("garbage\nOK\n"), Ok(vec![]));
}

#[test]
fn empty_log_is_incomplete() {
    assert_eq!(match_times(""), Err(ParseError::Incomplete));
}

#[test]
fn lines_after_ok_are_not_read() {
    assert_eq!(match_times("time: 2.5 a\nOK\ntime: 3.5 b\n"), Ok(vec!["2.5".to_string()]));
}

#[test]
fn crlf_endings_are_accepted() {
    assert_eq!(match_times("time: 0.10 x\r\nOK\r\n"), Ok(vec!["0.10".to_string()]));
}

#[test]
fn ok_without_final_newline() {
    assert_eq!(match_times("time: 4.0 y\nOK"), Ok(vec!["4.0".to_string()]));
}

#[test]
fn ok_must_be_the_whole_line() {
    assert_eq!(match_times("OK then\n OK\n"), Err(ParseError::Incomplete));
}

#[test]
fn timing_line_needs_fraction_and_trailing_text() {
    // no fraction, no digit before the dot, two spaces, no text after
    let log = "time: 12 a\ntime: .5 b\ntime:  1.5 c\ntime: 1.5\nOK\n";
    assert_eq!(match_times(log), Ok(vec![]));
}

#[test]
fn fraction_leaves_one_character_after_it() {
    // with nothing after the number, its last digit is the trailing text
    assert_eq!(match_times("time: 1.250\nOK\n"), Ok(vec!["1.25".to_string()]));
    assert_eq!(match_times("time: 3.14x\nOK\n"), Ok(vec!["3.14".to_string()]));
    assert_eq!(match_times("time:\t7.75 tab\nOK\n"), Ok(vec!["7.75".to_string()]));
}

#[test]
fn other_lines_are_ignored() {
    let log = "> compile passed for `a`\nnote: time: 1.0 x\ntime: 9.99 codegen\nOK\n";
    assert_eq!(match_times(log), Ok(vec!["9.99".to_string()]));
}

#[test]
fn join_line_separates_with_comma_space() {
    let items = vec!["a".to_string(), "b".to_string(), "c".to_string()];
    assert_eq!(join_line(&items), "a, b, c");
    assert_eq!(join_line(&vec!["only".to_string()]), "only");
    assert_eq!(join_line(&vec![]), "");
}

#[test]
fn report_lines_for_two_packages() {
    let l1 = report_line("out/output/a", "OK\n");
    let l2 = report_line("out/output/b", "time: 1.250 pass-a\n");
    assert_eq!(l1, "out/output/a, true");
    assert_eq!(l2, "out/output/b, false");
}

#[test]
fn report_line_lists_durations() {
    let l = report_line("p", "time: 1.250 pass-a\ntime: 0.003 pass-b\nOK\n");
    assert_eq!(l, "p, true, 1.250, 0.003");
}

#[test]
fn unicode_whitespace_after_prefix() {
    assert_eq!(match_times("time:\u{a0}1.25 x\nOK\n"), Ok(vec!["1.25".to_string()]));
    assert_eq!(match_times("time:\u{3000}2.5 y\nOK\n"), Ok(vec!["2.5".to_string()]));
    assert_eq!(match_times("time:\u{200b}2.5 y\nOK\n"), Ok(vec![]));
}

#[test]
fn unicode_decimal_digits() {
    let log = "time: \u{661}.\u{662}\u{663} z\nOK\n";
    assert_eq!(match_times(log), Ok(vec!["\u{661}.\u{662}\u{663}".to_string()]));
    assert_eq!(match_times("time: \u{b2}.5 z\nOK\n"), Ok(vec![]));
}
