use badwire::helpers::strip_units;
use badwire::parameter_entries::{NumberClasses, ParsedParams};
use badwire::presets::Preset;
use badwire::tc::NumberClass;

fn class_of(s: &str) -> NumberClass {
    match s.trim().parse::<f64>() {
        Ok(v) if v.is_nan() => NumberClass::NotANumber,
        Ok(v) if v < 0.0 => NumberClass::Negative,
        Ok(v) if v == 0.0 => NumberClass::Zero,
        Ok(v) if v <= 100.0 => NumberClass::UpToHundred,
        Ok(_) => NumberClass::AboveHundred,
        Err(_) => NumberClass::NotANumber,
    }
}

fn stripped_classes(p: &Preset) -> NumberClasses {
    let c = |s: &String| class_of(&strip_units(s));
    NumberClasses {
        delay: c(&p.delay),
        jitter: c(&p.jitter),
        loss: c(&p.loss),
        loss_corr: c(&p.loss_corr),
        reorder: c(&p.reorder),
        reorder_corr: c(&p.reorder_corr),
        corrupt: c(&p.corrupt),
        corrupt_corr: c(&p.corrupt_corr),
        duplicate: c(&p.duplicate),
        duplicate_corr: c(&p.duplicate_corr),
    }
}

#[test]
fn test_from_preset_converts_units() {
    let preset = Preset {
        name: "Test".into(),
        delay: "50ms".into(),
        jitter: "10ms".into(),
        loss: "5%".into(),
        loss_corr: "0%".into(),
        reorder: "0%".into(),
        reorder_corr: "".into(),
        corrupt: "0".into(),
        corrupt_corr: "0.0%".into(),
        duplicate: "0.0".into(),
        duplicate_corr: "0ms".into(),
        user_defined: true,
    };
    let params = ParsedParams::from_preset(&preset, &stripped_classes(&preset));

    assert_eq!(params.delay, "50");
    assert_eq!(params.jitter, Some("10".into()));
    assert_eq!(params.loss, Some("5".into()));
    assert_eq!(params.loss_corr, None);
    assert_eq!(params.reorder, None);
    assert_eq!(params.reorder_corr, None);
    assert_eq!(params.corrupt, None);
    assert_eq!(params.corrupt_corr, None);
    assert_eq!(params.duplicate, None);
    assert_eq!(params.duplicate_corr, None);
}

#[test]
fn test_describe_params() {
    let params = ParsedParams {
        delay: "50".into(),
        jitter: Some("10".into()),
        loss: Some("5".into()),
        loss_corr: Some("25".into()),
        reorder: None,
        reorder_corr: None,
        corrupt: None,
        corrupt_corr: None,
        duplicate: None,
        duplicate_corr: None,
    };
    let desc = params.describe();
    assert!(desc.contains("Delay: 50ms"));
    assert!(desc.contains("Jitter: 10ms"));
    assert!(desc.contains("Loss: 5% (corr: 25%)"));
}

fn full_params() -> ParsedParams {
    ParsedParams {
        delay: "150".into(),
        jitter: Some("30".into()),
        loss: Some("5".into()),
        loss_corr: None,
        reorder: Some("2".into()),
        reorder_corr: Some("50".into()),
        corrupt: Some("1".into()),
        corrupt_corr: None,
        duplicate: Some("3".into()),
        duplicate_corr: Some("80".into()),
    }
}

#[test]
fn describe_exact_text() {
    assert_eq!(
        full_params().describe(),
        "Delay: 150ms, Jitter: 30ms, Loss: 5%, Reorder: 2% (corr: 50%), Corrupt: 1%, Duplicate: 3% (corr: 80%)"
    );
    let only_delay = ParsedParams {
        delay: "0".into(),
        jitter: None,
        loss: None,
        loss_corr: Some("9".into()),
        reorder: None,
        reorder_corr: None,
        corrupt: None,
        corrupt_corr: None,
        duplicate: None,
        duplicate_corr: None,
    };
    assert_eq!(only_delay.describe(), "Delay: 0ms");
}

#[test]
fn from_texts_strips_and_drops_zero() {
    let texts = [" 20ms ", "0", "1.5%", "", "abc", "0.000", "-3", "100%", "0s", "7ms"];
    let cls = |s: &str| class_of(&strip_units(s));
    let classes = NumberClasses {
        delay: cls(texts[0]),
        jitter: cls(texts[1]),
        loss: cls(texts[2]),
        loss_corr: cls(texts[3]),
        reorder: cls(texts[4]),
        reorder_corr: cls(texts[5]),
        corrupt: cls(texts[6]),
        corrupt_corr: cls(texts[7]),
        duplicate: cls(texts[8]),
        duplicate_corr: cls(texts[9]),
    };
    let p = ParsedParams::from_texts(
        texts[0], texts[1], texts[2], texts[3], texts[4], texts[5], texts[6], texts[7], texts[8], texts[9],
        &classes,
    );
    assert_eq!(p.delay, "20");
    assert_eq!(p.jitter, None);
    assert_eq!(p.loss, Some("1.5".into()));
    assert_eq!(p.loss_corr, None);
    assert_eq!(p.reorder, Some("abc".into()));
    assert_eq!(p.reorder_corr, None);
    assert_eq!(p.corrupt, Some("-3".into()));
    assert_eq!(p.corrupt_corr, Some("100".into()));
    assert_eq!(p.duplicate, None);
    assert_eq!(p.duplicate_corr, Some("7".into()));
}

#[test]
fn delay_zero_is_kept() {
    let preset = Preset {
        name: "Zero".into(),
        delay: "0ms".into(),
        jitter: "".into(),
        loss: "".into(),
        loss_corr: "".into(),
        reorder: "".into(),
        reorder_corr: "".into(),
        corrupt: "".into(),
        corrupt_corr: "".into(),
        duplicate: "".into(),
        duplicate_corr: "".into(),
        user_defined: true,
    };
    let p = ParsedParams::from_preset(&preset, &stripped_classes(&preset));
    assert_eq!(p.delay, "0");
}

#[test]
fn entry_texts_filter_values() {
    let mut p = full_params();
    p.delay = "1.2.3".into();
    p.jitter = Some("-4".into());
    let t = p.entry_texts();
    assert_eq!(t, vec!["1.23", "4", "5", "", "2", "50", "1", "", "3", "80"]);
}
