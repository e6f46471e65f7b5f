use artale_timer::buff_config::{
    add_buff, add_buff_with_id, buff_def_id, buff_timer_defs, build_buff_hotkey_map, default_enabled, delete_buff,
    update_buff, BuffConfig, BuffItem, BuffUpdate,
};

fn buff(id: &str, name: &str, secs: u32, hotkey: Option<&str>, enabled: bool) -> BuffItem {
    BuffItem {
        id: id.to_string(),
        name: name.to_string(),
        duration_secs: secs,
        hotkey: hotkey.map(|h| h.to_string()),
        enabled,
    }
}

fn no_update(id: &str) -> BuffUpdate {
    BuffUpdate { id: id.to_string(), name: None, duration_secs: None, hotkey: None, enabled: None }
}

#[test]
fn buffs_are_enabled_by_default() {
    assert!(default_enabled());
    assert!(BuffConfig::default().buffs.is_empty());
}

#[test]
fn buff_definition_ids_have_a_prefix() {
    assert_eq!(buff_def_id("abc"), "buff_abc");
    assert_eq!(buff_def_id(""), "buff_");
}

#[test]
fn hotkey_map_keeps_enabled_buffs_with_keys() {
    let buffs = vec![
        buff("1", "Haste", 120, Some("F1"), true),
        buff("2", "Bless", 60, Some("F2"), false),
        buff("3", "Rage", 60, Some(""), true),
        buff("4", "Guard", 60, None, true),
    ];
    let map = build_buff_hotkey_map(&buffs);
    assert_eq!(map, vec![("F1".to_string(), "1".to_string())]);
}

#[test]
fn hotkey_map_later_buff_wins_on_a_shared_key() {
    let buffs = vec![buff("1", "Haste", 120, Some("F1"), true), buff("2", "Bless", 60, Some("F1"), true)];
    let map = build_buff_hotkey_map(&buffs);
    let last = map.iter().rev().find(|(k, _)| k == "F1").map(|(_, v)| v.clone());
    assert_eq!(last, Some("2".to_string()));
    let as_map: std::collections::HashMap<String, String> = map.into_iter().collect();
    assert_eq!(as_map.get("F1"), Some(&"2".to_string()));
}

#[test]
fn buff_timer_definitions_follow_the_buffs() {
    let buffs = vec![buff("1", "Haste", 120, Some("F1"), true), buff("2", "Bless", 60, None, false)];
    let defs = buff_timer_defs(&buffs);
    assert_eq!(defs.len(), 1);
    let d = &defs[0];
    assert_eq!(d.id, "buff_1");
    assert_eq!(d.name, "Haste");
    assert_eq!(d.icon, "💠");
    assert_eq!(d.duration_ms, 120_000);
    assert_eq!(d.hotkey, None);
    assert_eq!(d.chain_to, None);
    assert_eq!(d.color, "#4ECDC4");
    assert_eq!(d.warning_ms, 5000);
    assert!(!d.repeat);
    assert_eq!(d.timer_type, Some("buff".to_string()));
    assert_eq!(d.description, None);
}

#[test]
fn adding_a_buff_with_a_blank_name_fails() {
    let mut config = BuffConfig::default();
    let r = add_buff(&mut config, " \t\u{3000}".to_string(), 10, None);
    assert_eq!(r, Err("Buff name cannot be empty".to_string()));
    assert!(config.buffs.is_empty());
}

#[test]
fn adding_a_buff_with_zero_duration_fails() {
    let mut config = BuffConfig::default();
    let r = add_buff(&mut config, "Haste".to_string(), 0, None);
    assert_eq!(r, Err("Duration must be a positive integer".to_string()));
    assert!(config.buffs.is_empty());
}

#[test]
fn blank_name_is_reported_before_zero_duration() {
    let mut config = BuffConfig::default();
    let r = add_buff(&mut config, "".to_string(), 0, None);
    assert_eq!(r, Err("Buff name cannot be empty".to_string()));
}

#[test]
fn adding_a_buff_appends_it_enabled_with_a_fresh_id() {
    let mut config = BuffConfig::default();
    let a = add_buff(&mut config, "Haste".to_string(), 120, Some("F1".to_string())).unwrap();
    let b = add_buff(&mut config, "Bless".to_string(), 60, None).unwrap();
    assert_eq!(a.id.len(), 36);
    assert_ne!(a.id, b.id);
    assert!(a.enabled);
    assert_eq!(config.buffs, vec![a.clone(), b.clone()]);
    assert_eq!(a.name, "Haste");
    assert_eq!(a.hotkey, Some("F1".to_string()));
}

#[test]
fn adding_with_a_given_id_uses_it() {
    let mut config = BuffConfig::default();
    let a = add_buff_with_id(&mut config, "x".to_string(), " Haste ".to_string(), 5, None).unwrap();
    assert_eq!(a, buff("x", " Haste ", 5, None, true));
}

#[test]
fn updating_an_unknown_buff_fails() {
    let mut config = BuffConfig { buffs: vec![buff("1", "Haste", 120, None, true)] };
    let r = update_buff(&mut config, no_update("9"));
    assert_eq!(r, Err("Buff '9' not found".to_string()));
    assert_eq!(config.buffs, vec![buff("1", "Haste", 120, None, true)]);
}

#[test]
fn updating_applies_every_given_field() {
    let mut config = BuffConfig { buffs: vec![buff("1", "Haste", 120, Some("F1"), true), buff("2", "Bless", 5, None, true)] };
    let u = BuffUpdate {
        id: "1".to_string(),
        name: Some("Speed".to_string()),
        duration_secs: Some(30),
        hotkey: Some(None),
        enabled: Some(false),
    };
    let r = update_buff(&mut config, u).unwrap();
    assert_eq!(r, buff("1", "Speed", 30, None, false));
    assert_eq!(config.buffs[0], r);
    assert_eq!(config.buffs[1], buff("2", "Bless", 5, None, true));
}

#[test]
fn updating_with_a_blank_name_changes_nothing() {
    let mut config = BuffConfig { buffs: vec![buff("1", "Haste", 120, None, true)] };
    let mut u = no_update("1");
    u.name = Some("   ".to_string());
    u.duration_secs = Some(7);
    assert_eq!(update_buff(&mut config, u), Err("Buff name cannot be empty".to_string()));
    assert_eq!(config.buffs, vec![buff("1", "Haste", 120, None, true)]);
}

#[test]
fn updating_with_zero_duration_keeps_the_new_name() {
    let mut config = BuffConfig { buffs: vec![buff("1", "Haste", 120, None, true)] };
    let mut u = no_update("1");
    u.name = Some("Speed".to_string());
    u.duration_secs = Some(0);
    u.enabled = Some(false);
    assert_eq!(update_buff(&mut config, u), Err("Duration must be a positive integer".to_string()));
    assert_eq!(config.buffs, vec![buff("1", "Speed", 120, None, true)]);
}

#[test]
fn updating_with_nothing_given_keeps_the_buff() {
    let mut config = BuffConfig { buffs: vec![buff("1", "Haste", 120, Some("F1"), true)] };
    assert_eq!(update_buff(&mut config, no_update("1")), Ok(buff("1", "Haste", 120, Some("F1"), true)));
}

#[test]
fn deleting_removes_the_buff() {
    let mut config = BuffConfig { buffs: vec![buff("1", "Haste", 120, None, true), buff("2", "Bless", 5, None, true)] };
    assert_eq!(delete_buff(&mut config, "1"), Ok(()));
    assert_eq!(config.buffs, vec![buff("2", "Bless", 5, None, true)]);
}

#[test]
fn deleting_an_unknown_buff_fails_and_changes_nothing() {
    let mut config = BuffConfig { buffs: vec![buff("1", "Haste", 120, None, true)] };
    assert_eq!(delete_buff(&mut config, "7"), Err("Buff '7' not found".to_string()));
    assert_eq!(config.buffs, vec![buff("1", "Haste", 120, None, true)]);
}

#[test]
fn deleting_what_was_just_added_restores_the_list() {
    let mut config = BuffConfig { buffs: vec![buff("1", "Haste", 120, None, true)] };
    let before = config.buffs.clone();
    let b = add_buff(&mut config, "Bless".to_string(), 60, None).unwrap();
    delete_buff(&mut config, &b.id).unwrap();
    assert_eq!(config.buffs, before);
}

#[test]
fn fresh_buff_ids_are_version_4_uuids() {
    let mut config = BuffConfig::default();
    let b = add_buff(&mut config, "Haste".to_string(), 5, None).unwrap();
    let c: Vec<char> = b.id.chars().collect();
    assert_eq!(c.len(), 36);
    assert_eq!((c[8], c[13], c[14], c[18], c[23]), ('-', '-', '4', '-', '-'));
    assert!("89ab".contains(c[19]));
    assert!(b.id.chars().all(|ch| ch == '-' || ch.is_ascii_digit() || ('a'..='f').contains(&ch)));
}
