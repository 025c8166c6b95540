use badwire::tc::{
    build_netem_args, is_valid_nonneg_number, is_valid_percentage, tc_invocation, tc_invocation_for,
    tc_outcome, NumberClass, Reading, TcError,
};

/// How the trimmed text reads as an `f64`, the way the application classifies it.
fn class_of(s: &str) -> NumberClass {
    match s.trim().parse::<f64>() {
        Ok(v) if v.is_nan() => NumberClass::NotANumber,
        Ok(v) if v < 0.0 => NumberClass::Negative,
        Ok(v) if v == 0.0 => NumberClass::Zero,
        Ok(v) if v <= 100.0 => NumberClass::UpToHundred,
        Ok(_) => NumberClass::AboveHundred,
        Err(_) => NumberClass::NotANumber,
    }
}

fn r(s: &str) -> Reading {
    Reading { text: s.to_string(), class: class_of(s) }
}

fn nonneg(s: &str) -> bool {
    is_valid_nonneg_number(s, class_of(s))
}

fn pct(s: &str) -> bool {
    is_valid_percentage(s, class_of(s))
}

#[test]
fn test_is_valid_nonneg_number() {
    assert!(nonneg("0"));
    assert!(nonneg("0.0"));
    assert!(nonneg("100.5"));
    assert!(nonneg(""));
    assert!(!nonneg("-1"));
    assert!(!nonneg("abc"));
}

#[test]
fn test_is_valid_percentage() {
    assert!(pct("0"));
    assert!(pct("100"));
    assert!(pct("50.5"));
    assert!(!pct("101"));
    assert!(!pct("-1"));
    assert!(!pct("abc"));
}

#[test]
fn nonneg_accepts_blank_and_trims() {
    assert!(nonneg("   "));
    assert!(nonneg(" 7 "));
    assert!(!nonneg(" -0.5 "));
    assert!(nonneg("-0"));
    assert!(!nonneg("NaN"));
    assert!(nonneg("inf"));
}

#[test]
fn percentage_refuses_blank_and_bounds() {
    assert!(!pct(""));
    assert!(!pct("  "));
    assert!(pct(" 100 "));
    assert!(!pct("100.01"));
    assert!(!pct("inf"));
}

#[test]
fn test_build_netem_args_delay_only() {
    let args = build_netem_args(&r("100"), None, None, None, None, None, None, None, None, None).unwrap();
    assert_eq!(args, vec!["delay", "100ms"]);
}

#[test]
fn test_build_netem_args_delay_with_jitter() {
    let args = build_netem_args(&r("200"), Some(&r("50")), None, None, None, None, None, None, None, None)
        .unwrap();
    assert_eq!(args, vec!["delay", "200ms", "50ms"]);
}

#[test]
fn test_build_netem_args_loss_only() {
    let args = build_netem_args(
        &r("0"),
        None,
        Some(&r("10")),
        Some(&r("20")),
        None,
        None,
        None,
        None,
        None,
        None,
    )
    .unwrap();
    assert_eq!(args, vec!["delay", "0ms", "loss", "random", "10", "20"]);
}

#[test]
fn test_build_netem_args_full() {
    let args = build_netem_args(
        &r("150"),
        Some(&r("30")),
        Some(&r("5")),
        Some(&r("25")),
        Some(&r("2")),
        Some(&r("50")),
        Some(&r("1")),
        Some(&r("75")),
        Some(&r("3")),
        Some(&r("80")),
    )
    .unwrap();
    assert_eq!(
        args,
        vec![
            "delay", "150ms", "30ms", "loss", "random", "5", "25", "reorder", "2", "50", "corrupt",
            "1", "75", "duplicate", "3", "80",
        ]
    );
}

#[test]
fn test_build_netem_args_invalid_delay() {
    let err = build_netem_args(&r(""), None, None, None, None, None, None, None, None, None).unwrap_err();
    assert!(err.contains("Delay must not be empty"));
}

#[test]
fn test_build_netem_args_invalid_jitter() {
    let err = build_netem_args(&r("10"), Some(&r("abc")), None, None, None, None, None, None, None, None)
        .unwrap_err();
    assert!(err.contains("Invalid jitter"));
}

#[test]
fn test_build_netem_args_invalid_loss() {
    let err = build_netem_args(
        &r("10"),
        None,
        Some(&r("notanumber")),
        None,
        None,
        None,
        None,
        None,
        None,
        None,
    )
    .unwrap_err();
    assert!(err.contains("Invalid loss"));
}

#[test]
fn test_build_netem_args_percentage_out_of_range() {
    let err = build_netem_args(&r("10"), None, Some(&r("150")), None, None, None, None, None, None, None)
        .unwrap_err();
    assert!(err.contains("Invalid loss") && err.contains("0-100"));
}

#[test]
fn build_args_exact_messages() {
    let e = build_netem_args(&r("  "), None, None, None, None, None, None, None, None, None).unwrap_err();
    assert_eq!(e, "Delay must not be empty");
    let e = build_netem_args(&r("-5"), None, None, None, None, None, None, None, None, None).unwrap_err();
    assert_eq!(e, "Invalid delay: -5");
    let e = build_netem_args(&r("5"), Some(&r("-1")), None, None, None, None, None, None, None, None)
        .unwrap_err();
    assert_eq!(e, "Invalid jitter: -1");
    let e = build_netem_args(&r("5"), None, None, None, Some(&r("200")), None, None, None, None, None)
        .unwrap_err();
    assert_eq!(e, "Invalid reorder: 200 (must be 0-100)");
    let e = build_netem_args(&r("5"), None, None, None, None, None, Some(&r("3")), Some(&r("x")), None, None)
        .unwrap_err();
    assert_eq!(e, "Invalid corrupt correlation: x (must be 0-100)");
    let e = build_netem_args(&r("5"), None, None, None, None, None, None, None, Some(&r("")), None)
        .unwrap_err();
    assert_eq!(e, "Invalid duplicate:  (must be 0-100)");
}

#[test]
fn build_args_first_error_wins() {
    let e = build_netem_args(
        &r("5"),
        Some(&r("bad")),
        Some(&r("500")),
        None,
        None,
        None,
        None,
        None,
        None,
        None,
    )
    .unwrap_err();
    assert_eq!(e, "Invalid jitter: bad");
    let e = build_netem_args(&r("5"), None, Some(&r("5")), Some(&r("101")), Some(&r("-2")), None, None, None, None, None)
        .unwrap_err();
    assert_eq!(e, "Invalid loss correlation: 101 (must be 0-100)");
}

#[test]
fn build_args_correlation_without_value_is_ignored() {
    let args = build_netem_args(&r("5"), None, None, Some(&r("20")), None, Some(&r("bad")), None, None, None, None)
        .unwrap();
    assert_eq!(args, vec!["delay", "5ms"]);
}

#[test]
fn build_args_keeps_untrimmed_text() {
    let args = build_netem_args(&r(" 5 "), Some(&r("1 ")), None, None, None, None, None, None, None, None).unwrap();
    assert_eq!(args, vec!["delay", " 5 ms", "1 ms"]);
}

#[test]
fn tc_error_messages() {
    assert_eq!(TcError::Io("no such file".to_string()).to_string(), "Failed to execute tc: no such file");
    assert_eq!(
        TcError::Command(2, "RTNETLINK answers: Operation not permitted".to_string()).to_string(),
        "tc command failed with exit code 2: RTNETLINK answers: Operation not permitted"
    );
    assert_eq!(TcError::Command(-1, String::new()).to_string(), "tc command failed with exit code -1: ");
    assert_eq!(
        TcError::Command(i32::MIN, "x".to_string()).to_string(),
        "tc command failed with exit code -2147483648: x"
    );
    assert_eq!(TcError::Command(1234567, "y".to_string()).to_string(), "tc command failed with exit code 1234567: y");
    assert_eq!(TcError::AuthRequired.to_string(), "Root privileges required. Please authenticate.");
}

#[test]
fn invocation_as_root_runs_tc() {
    let args = vec!["qdisc".to_string(), "show".to_string()];
    let inv = tc_invocation_for(true, &args);
    assert_eq!(inv.program, "tc");
    assert_eq!(inv.args, args);
    assert!(!inv.via_helper);
}

#[test]
fn invocation_as_user_runs_helper() {
    let args = vec!["qdisc".to_string(), "show".to_string()];
    let inv = tc_invocation_for(false, &args);
    assert_eq!(inv.program, "pkexec");
    assert_eq!(inv.args, vec!["/usr/lib/badwire/badwire-tc-helper", "qdisc", "show"]);
    assert!(inv.via_helper);
}

#[test]
fn invocation_of_this_process_is_one_of_both() {
    let args = vec!["qdisc".to_string()];
    let inv = tc_invocation(&args);
    if inv.via_helper {
        assert_eq!(inv.program, "pkexec");
        assert_eq!(inv.args, vec!["/usr/lib/badwire/badwire-tc-helper", "qdisc"]);
    } else {
        assert_eq!(inv.program, "tc");
        assert_eq!(inv.args, args);
    }
}

#[test]
fn outcome_of_runs() {
    let direct = tc_invocation_for(true, &vec![]);
    let helper = tc_invocation_for(false, &vec![]);
    assert_eq!(tc_outcome(&direct, true, Some(0), "  ok\n", "ignored"), Ok("ok".to_string()));
    assert_eq!(tc_outcome(&direct, false, Some(126), "", " denied \n"), Err(TcError::Command(126, "denied".to_string())));
    assert_eq!(tc_outcome(&helper, false, Some(126), "", "x"), Err(TcError::AuthRequired));
    assert_eq!(tc_outcome(&helper, false, Some(127), "", "x"), Err(TcError::AuthRequired));
    assert_eq!(tc_outcome(&helper, false, Some(2), "", " bad "), Err(TcError::Command(2, "bad".to_string())));
    assert_eq!(tc_outcome(&helper, false, None, "", "killed"), Err(TcError::Command(-1, "killed".to_string())));
}
