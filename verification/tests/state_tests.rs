use badwire::error::AppError;
use badwire::presets::{default_presets, Preset, PresetsError};
use badwire::state::AppState;
use badwire::tc::TcError;

fn preset(name: &str, user_defined: bool) -> Preset {
    Preset {
        name: name.into(),
        delay: "10ms".into(),
        jitter: "".into(),
        loss: "1%".into(),
        loss_corr: "".into(),
        reorder: "".into(),
        reorder_corr: "".into(),
        corrupt: "".into(),
        corrupt_corr: "".into(),
        duplicate: "".into(),
        duplicate_corr: "".into(),
        user_defined,
    }
}

#[test]
fn new_state_is_idle_on_lo() {
    let s = AppState::new(default_presets());
    assert!(!s.is_active());
    assert_eq!(s.current_config(), "");
    assert_eq!(s.selected_iface(), "lo");
    assert_eq!(s.get_presets().len(), 7);
}

#[test]
fn setters_are_read_back() {
    let mut s = AppState::new(Vec::new());
    s.set_active(true);
    assert!(s.is_active());
    s.set_current_config("Delay: 5ms");
    assert_eq!(s.current_config(), "Delay: 5ms");
    s.set_selected_iface("eth0");
    assert_eq!(s.selected_iface(), "eth0");
    s.set_active(false);
    assert!(!s.is_active());
}

#[test]
fn saved_preset_is_found_again() {
    let mut s = AppState::new(default_presets());
    assert!(s.upsert_preset(preset("Mine", true)).is_ok());
    let found = s.find_preset("Mine").unwrap();
    assert_eq!(found.loss, "1%");
    assert_eq!(s.get_presets().len(), 8);
    assert_eq!(s.get_presets()[7].name, "Mine");
}

#[test]
fn saving_again_replaces_and_moves_to_end() {
    let mut s = AppState::new(vec![preset("A", true), preset("B", true)]);
    let mut a2 = preset("A", true);
    a2.delay = "99ms".into();
    assert!(s.upsert_preset(a2).is_ok());
    let names: Vec<String> = s.get_presets().into_iter().map(|p| p.name).collect();
    assert_eq!(names, vec!["B", "A"]);
    assert_eq!(s.find_preset("A").unwrap().delay, "99ms");
}

#[test]
fn builtin_name_cannot_be_saved() {
    let mut s = AppState::new(default_presets());
    let err = s.upsert_preset(preset("WiFi", true)).unwrap_err();
    assert_eq!(err, AppError::Other("Cannot overwrite built-in preset.".into()));
    assert_eq!(err.to_string(), "Cannot overwrite built-in preset.");
    assert_eq!(s.find_preset("WiFi").unwrap().delay, "2ms");
}

#[test]
fn deleted_preset_is_gone() {
    let mut s = AppState::new(default_presets());
    s.upsert_preset(preset("Mine", true)).unwrap();
    assert!(s.delete_preset("Mine").is_ok());
    assert!(s.find_preset("Mine").is_none());
    assert_eq!(s.get_presets().len(), 7);
}

#[test]
fn delete_refusals() {
    let mut s = AppState::new(default_presets());
    assert_eq!(s.delete_preset("Nope").unwrap_err(), AppError::Other("Preset not found.".into()));
    assert_eq!(s.delete_preset("3G").unwrap_err(), AppError::Other("Cannot delete built-in preset.".into()));
    assert_eq!(s.get_presets().len(), 7);
}

#[test]
fn delete_removes_every_preset_of_the_name() {
    let mut s = AppState::new(vec![preset("X", true), preset("Y", true), preset("X", false)]);
    assert!(s.delete_preset("X").is_ok());
    let names: Vec<String> = s.get_presets().into_iter().map(|p| p.name).collect();
    assert_eq!(names, vec!["Y"]);
}

#[test]
fn reset_restores_defaults() {
    let mut s = AppState::new(vec![preset("Mine", true)]);
    s.set_active(true);
    s.reset_to_defaults();
    assert_eq!(s.get_presets().len(), 7);
    assert!(s.find_preset("Mine").is_none());
    assert!(s.is_active());
}

#[test]
fn app_error_messages() {
    assert_eq!(AppError::Tc(TcError::AuthRequired).to_string(), "tc error: Root privileges required. Please authenticate.");
    assert_eq!(AppError::Presets(PresetsError::NoConfigDir).to_string(), "presets error: Cannot determine config directory");
    assert_eq!(AppError::Other("plain".into()).to_string(), "plain");
    assert_eq!(AppError::from("from text".to_string()), AppError::Other("from text".into()));
}
