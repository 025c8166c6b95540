use badwire::helpers::{filter_numeric, interface_list, strip_units};
#[test]
fn test_strip_units() {
    assert_eq!(strip_units("50ms"), "50");
    assert_eq!(strip_units("0.1%"), "0.1");
    assert_eq!(strip_units("0s"), "0");
    assert_eq!(strip_units("100"), "100");
    assert_eq!(strip_units(""), "");
}

#[test]
fn strip_units_repeats_and_trims() {
    assert_eq!(strip_units("  20 ms "), "20");
    assert_eq!(strip_units("5msms"), "5");
    assert_eq!(strip_units("5mss"), "5m");
    assert_eq!(strip_units("3ss%%"), "3ss");
    assert_eq!(strip_units("7%"), "7");
    assert_eq!(strip_units("\u{a0}9ms\u{3000}"), "9");
    assert_eq!(strip_units("ms"), "");
}

#[test]
fn empty_string() {
    assert_eq!(filter_numeric(""), "");
}

#[test]
fn only_letters() {
    assert_eq!(filter_numeric("abc"), "");
}

#[test]
fn only_digits() {
    assert_eq!(filter_numeric("12345"), "12345");
}

#[test]
fn digits_with_text() {
    assert_eq!(filter_numeric("a1b2c3"), "123");
}

#[test]
fn zero() {
    assert_eq!(filter_numeric("0"), "0");
}

#[test]
fn decimal_zero() {
    assert_eq!(filter_numeric("0.0"), "0.0");
}

#[test]
fn decimal_without_integer_part() {
    assert_eq!(filter_numeric(".5"), ".5");
}

#[test]
fn standard_decimal() {
    assert_eq!(filter_numeric("12.34"), "12.34");
}

#[test]
fn multiple_dots() {
    assert_eq!(filter_numeric("1.2.3.4"), "1.234");
}

#[test]
fn dot_without_digits() {
    assert_eq!(filter_numeric("."), "");
}

#[test]
fn two_dots_no_digits() {
    assert_eq!(filter_numeric(".."), "");
}

#[test]
fn dots_and_digit() {
    assert_eq!(filter_numeric("..5"), ".5");
}

#[test]
fn digit_dot_dot_digit() {
    assert_eq!(filter_numeric("5..6"), "5.6");
}

#[test]
fn leading_zero_decimal() {
    assert_eq!(filter_numeric("0.001"), "0.001");
}

#[test]
fn minus_ignored() {
    assert_eq!(filter_numeric("-42"), "42");
}

#[test]
fn negative_decimal_ignored() {
    assert_eq!(filter_numeric("-3.14"), "3.14");
}

#[test]
fn minus_in_middle_ignored() {
    assert_eq!(filter_numeric("12-34"), "1234");
}

#[test]
fn spaces_and_newlines() {
    assert_eq!(filter_numeric(" 1 2\n3.4 "), "123.4");
}

#[test]
fn typical_netem_delay() {
    assert_eq!(filter_numeric("delay 10ms"), "10");
}

#[test]
fn typical_netem_loss() {
    assert_eq!(filter_numeric("loss 0.5%"), "0.5");
}

#[test]
fn only_minus() {
    assert_eq!(filter_numeric("-"), "");
}

#[test]
fn minus_and_dot() {
    assert_eq!(filter_numeric("-."), "");
}

#[test]
fn dot_with_digit_before() {
    assert_eq!(filter_numeric("5."), "5.");
}

#[test]
fn minus_digit_dot() {
    assert_eq!(filter_numeric("-5."), "5.");
}

#[test]
fn trailing_dot_allowed() {
    assert_eq!(filter_numeric("12."), "12.");
}

#[test]
fn only_dot_and_digit() {
    assert_eq!(filter_numeric(".5"), ".5");
}

#[test]
fn filter_numeric_twice_changes_nothing() {
    for t in ["a1.b2.c3", "..5..", "-.-", "12.34.56", "x", " 0 . 0 ", "\u{663}1"] {
        let once = filter_numeric(t);
        assert_eq!(filter_numeric(&once), once);
    }
}

#[test]
fn filter_numeric_ignores_non_ascii_digits() {
    assert_eq!(filter_numeric("\u{663}\u{664}"), "");
    assert_eq!(filter_numeric("\u{663}7"), "7");
}

fn names(v: &[&str]) -> Vec<String> {
    v.iter().map(|s| s.to_string()).collect()
}

#[test]
fn interfaces_start_with_lo_once() {
    let list = interface_list(&names(&["eth0", "lo", "wlan0", "eth0", "lo"]));
    assert_eq!(list, vec!["lo", "eth0", "wlan0"]);
}

#[test]
fn interfaces_without_any_name_hold_lo() {
    let list = interface_list(&Vec::new());
    assert_eq!(list, vec!["lo"]);
}

#[test]
fn interfaces_have_no_duplicates() {
    let list = interface_list(&names(&["b", "a", "b", "c", "a"]));
    assert_eq!(list, vec!["lo", "b", "a", "c"]);
    for (i, x) in list.iter().enumerate() {
        for y in &list[i + 1..] {
            assert_ne!(x, y);
        }
    }
}
