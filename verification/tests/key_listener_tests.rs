use artale_timer::key_listener::{build_hotkey_string, keycode_to_string, KeyListener, ListenerStart};

#[test]
fn key_codes_have_names() {
    assert_eq!(keycode_to_string(0), Some("A".to_string()));
    assert_eq!(keycode_to_string(42), Some("\\".to_string()));
    assert_eq!(keycode_to_string(50), Some("Backquote".to_string()));
    assert_eq!(keycode_to_string(82), Some("0".to_string()));
    assert_eq!(keycode_to_string(29), Some("0".to_string()));
    assert_eq!(keycode_to_string(36), Some("Enter".to_string()));
    assert_eq!(keycode_to_string(76), Some("Enter".to_string()));
    assert_eq!(keycode_to_string(126), Some("Up".to_string()));
    assert_eq!(keycode_to_string(10), None);
    assert_eq!(keycode_to_string(127), None);
    assert_eq!(keycode_to_string(u16::MAX), None);
}

#[test]
fn every_key_code_below_128_is_named_or_not() {
    let named = (0u16..128).filter(|k| keycode_to_string(*k).is_some()).count();
    assert_eq!(named, 92);
}

#[test]
fn hotkey_strings_list_modifiers_in_order() {
    assert_eq!(build_hotkey_string(0, false, false, false), Some("A".to_string()));
    assert_eq!(build_hotkey_string(0, true, true, true), Some("Ctrl+Shift+Alt+A".to_string()));
    assert_eq!(build_hotkey_string(122, false, true, false), Some("Shift+F1".to_string()));
    assert_eq!(build_hotkey_string(29, true, false, false), Some("Ctrl+0".to_string()));
    assert_eq!(build_hotkey_string(10, true, false, false), None);
}

#[test]
fn a_new_listener_is_idle() {
    let l = KeyListener::new();
    assert!(!l.is_running());
    assert!(!l.is_monitoring_requested());
    assert_eq!(l.buff_for_key(0, false, false, false), None);
}

#[test]
fn starting_and_stopping() {
    let mut l = KeyListener::new();
    assert_eq!(l.start(), ListenerStart::LaunchTap);
    assert!(l.is_monitoring_requested());
    assert!(!l.is_running());
    l.tap_started();
    assert!(l.is_running());
    assert_eq!(l.start(), ListenerStart::AlreadyRunning);
    assert!(l.stop());
    assert!(!l.is_monitoring_requested());
    l.tap_stopped();
    assert!(!l.is_running());
    assert!(!l.stop());
}

#[test]
fn key_presses_map_to_buffs() {
    let mut l = KeyListener::new();
    l.update_hotkeys(vec![
        ("Ctrl+A".to_string(), "haste".to_string()),
        ("F1".to_string(), "bless".to_string()),
        ("F1".to_string(), "rage".to_string()),
    ]);
    assert_eq!(l.buff_for_key(0, true, false, false), Some("haste".to_string()));
    assert_eq!(l.buff_for_key(0, false, false, false), None);
    assert_eq!(l.buff_for_key(122, false, false, false), Some("rage".to_string()));
    assert_eq!(l.buff_for_key(10, true, false, false), None);
    l.update_hotkeys(vec![]);
    assert_eq!(l.buff_for_key(0, true, false, false), None);
}
