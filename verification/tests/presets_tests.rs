use badwire::presets::{default_presets, plan_load, Preset, PresetsError, PresetsSource};

#[test]
fn test_default_presets_count() {
    let defaults = default_presets();
    assert_eq!(defaults.len(), 7);
    assert!(defaults.iter().all(|p| !p.user_defined));
}

#[test]
fn default_preset_contents() {
    let d = default_presets();
    let names: Vec<&str> = d.iter().map(|p| p.name.as_str()).collect();
    assert_eq!(
        names,
        vec!["2G (GPRS)", "3G", "4G", "WiFi", "Bad Network", "High Latency (Satellite)", "Packet Loss 100%"]
    );
    assert_eq!(d[0].delay, "500ms");
    assert_eq!(d[0].jitter, "100ms");
    assert_eq!(d[2].loss, "0.1%");
    assert_eq!(d[4].loss_corr, "25%");
    assert_eq!(d[6].loss, "100%");
    assert!(d.iter().all(|p| p.reorder.is_empty() && p.duplicate_corr.is_empty()));
    for i in 0..d.len() {
        for j in i + 1..d.len() {
            assert_ne!(d[i].name, d[j].name);
        }
    }
}

fn custom() -> Preset {
    Preset {
        name: "Custom".into(),
        delay: "300ms".into(),
        jitter: "50ms".into(),
        loss: "0%".into(),
        loss_corr: "0%".into(),
        reorder: "".into(),
        reorder_corr: "".into(),
        corrupt: "".into(),
        corrupt_corr: "".into(),
        duplicate: "".into(),
        duplicate_corr: "".into(),
        user_defined: true,
    }
}

#[test]
fn load_plans() {
    let parsed = plan_load(PresetsSource::Parsed(vec![custom()]));
    assert_eq!(parsed.presets.len(), 1);
    assert_eq!(parsed.presets[0].name, "Custom");
    assert!(!parsed.back_up_file && !parsed.write_presets);

    let missing = plan_load(PresetsSource::Missing);
    assert_eq!(missing.presets.len(), 7);
    assert!(!missing.back_up_file && missing.write_presets);

    let corrupted = plan_load(PresetsSource::Corrupted);
    assert_eq!(corrupted.presets.len(), 7);
    assert!(corrupted.back_up_file && corrupted.write_presets);

    for source in [PresetsSource::NoConfigDir, PresetsSource::Unreadable] {
        let plan = plan_load(source);
        assert_eq!(plan.presets.len(), 7);
        assert!(!plan.back_up_file && !plan.write_presets);
    }
}

#[test]
fn presets_error_messages() {
    assert_eq!(PresetsError::Io("denied".into()).to_string(), "IO error: denied");
    assert_eq!(PresetsError::Serde("eof".into()).to_string(), "Serialization error: eof");
    assert_eq!(PresetsError::NoConfigDir.to_string(), "Cannot determine config directory");
}

#[test]
fn preset_clone_is_equal() {
    let p = custom();
    let q = p.clone();
    assert_eq!(q.name, p.name);
    assert_eq!(q.delay, p.delay);
    assert_eq!(q.user_defined, p.user_defined);
}
