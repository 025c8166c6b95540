use badwire::commands::{netem_start_args, netem_stop_args, start_netem, stop_netem};
use badwire::error::AppError;
use badwire::parameter_entries::{NumberClasses, ParsedParams};
use badwire::presets::default_presets;
use badwire::state::AppState;
use badwire::tc::{NumberClass, TcError};

fn class_of(s: &str) -> NumberClass {
    match s.trim().parse::<f64>() {
        Ok(v) if v.is_nan() => NumberClass::NotANumber,
        Ok(v) if v < 0.0 => NumberClass::Negative,
        Ok(v) if v == 0.0 => NumberClass::Zero,
        Ok(v) if v <= 100.0 => NumberClass::UpToHundred,
        Ok(_) => NumberClass::AboveHundred,
        Err(_) => NumberClass::NotANumber,
    }
}

fn classes(p: &ParsedParams) -> NumberClasses {
    let c = |o: &Option<String>| o.as_deref().map(class_of).unwrap_or(NumberClass::NotANumber);
    NumberClasses {
        delay: class_of(&p.delay),
        jitter: c(&p.jitter),
        loss: c(&p.loss),
        loss_corr: c(&p.loss_corr),
        reorder: c(&p.reorder),
        reorder_corr: c(&p.reorder_corr),
        corrupt: c(&p.corrupt),
        corrupt_corr: c(&p.corrupt_corr),
        duplicate: c(&p.duplicate),
        duplicate_corr: c(&p.duplicate_corr),
    }
}

fn params(delay: &str, loss: Option<&str>) -> ParsedParams {
    ParsedParams {
        delay: delay.into(),
        jitter: None,
        loss: loss.map(|s| s.to_string()),
        loss_corr: None,
        reorder: None,
        reorder_corr: None,
        corrupt: None,
        corrupt_corr: None,
        duplicate: None,
        duplicate_corr: None,
    }
}

#[test]
fn start_args_prefix_and_netem() {
    let p = params("20", Some("5"));
    let args = netem_start_args("eth0", &p, &classes(&p)).unwrap();
    assert_eq!(args, vec!["qdisc", "replace", "dev", "eth0", "root", "netem", "delay", "20ms", "loss", "random", "5"]);
}

#[test]
fn start_args_refused() {
    let p = params("", None);
    let err = netem_start_args("eth0", &p, &classes(&p)).unwrap_err();
    assert_eq!(err, AppError::Other("Delay must not be empty".into()));
}

#[test]
fn stop_args_reset_qdisc() {
    assert_eq!(netem_stop_args("wlan0"), vec!["qdisc", "replace", "dev", "wlan0", "root", "netem"]);
}

#[test]
fn start_success_updates_state() {
    let mut s = AppState::new(default_presets());
    let p = params("20", Some("5"));
    let res = start_netem(&mut s, "eth0", &p, &classes(&p), Ok(String::new()));
    assert!(res.is_ok());
    assert!(s.is_active());
    assert_eq!(s.selected_iface(), "eth0");
    assert_eq!(s.current_config(), "Delay: 20ms, Loss: 5%");
}

#[test]
fn start_failure_keeps_state() {
    let mut s = AppState::new(default_presets());
    let p = params("20", None);
    let res = start_netem(&mut s, "eth0", &p, &classes(&p), Err(TcError::AuthRequired));
    assert_eq!(res, Err(AppError::Tc(TcError::AuthRequired)));
    assert!(!s.is_active());
    assert_eq!(s.selected_iface(), "lo");
    assert_eq!(s.current_config(), "");

    let bad = params("20", Some("500"));
    let res = start_netem(&mut s, "eth0", &bad, &classes(&bad), Ok(String::new()));
    assert_eq!(res, Err(AppError::Other("Invalid loss: 500 (must be 0-100)".into())));
    assert!(!s.is_active());
}

#[test]
fn stop_turns_emulation_off() {
    let mut s = AppState::new(default_presets());
    let p = params("20", None);
    start_netem(&mut s, "eth0", &p, &classes(&p), Ok(String::new())).unwrap();
    let res = stop_netem(&mut s, Err(TcError::Command(2, "busy".into())));
    assert_eq!(res, Err(AppError::Tc(TcError::Command(2, "busy".into()))));
    assert!(s.is_active());
    assert!(stop_netem(&mut s, Ok(String::new())).is_ok());
    assert!(!s.is_active());
    assert_eq!(s.current_config(), "No active configuration");
    assert_eq!(s.selected_iface(), "eth0");
}
