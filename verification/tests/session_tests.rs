use artale_timer::boss_config::{BossConfig, BossInfo, DisplayConfig, TimerDef};
use artale_timer::buff_config::{buff_timer_defs, BuffConfig, BuffItem, BuffUpdate};
use artale_timer::key_listener::KeyListener;
use artale_timer::session::{
    active_boss_index, apply_buff_update, boss_hotkeys_for, boss_id_from_menu, boss_menu_id, remove_buff,
    select_boss_from_menu, current_shortcuts_plan, enable_shortcuts_plan, list_bosses,
    refresh_buff_shortcuts, reload_visible_defs, select_boss, start_buff_monitoring, sync_muted_defs, ShortcutChange,
};
use artale_timer::settings::AppSettings;
use artale_timer::shortcuts::{ShortcutAction, ShortcutBinding};
use artale_timer::timer_engine::TimerEngine;

fn def(id: &str, hotkey: Option<&str>) -> TimerDef {
    TimerDef {
        id: id.to_string(),
        name: id.to_uppercase(),
        icon: "i".to_string(),
        duration_ms: 1000,
        hotkey: hotkey.map(|h| h.to_string()),
        chain_to: None,
        color: "c".to_string(),
        warning_ms: 0,
        repeat: false,
        timer_type: None,
        description: None,
    }
}

fn boss(name: &str, timers: Vec<TimerDef>) -> BossConfig {
    BossConfig {
        boss: BossInfo { name: name.to_string(), description: format!("{} fight", name) },
        timers,
        display: DisplayConfig::default(),
    }
}

fn bosses() -> Vec<(String, BossConfig)> {
    vec![
        ("zakum".to_string(), boss("Zakum", vec![def("arm", Some("F1")), def("body", Some("F2"))])),
        ("lotus".to_string(), boss("Lotus", vec![def("blade", None)])),
    ]
}

fn buff(id: &str, hotkey: Option<&str>, enabled: bool) -> BuffItem {
    BuffItem { id: id.to_string(), name: id.to_string(), duration_secs: 10, hotkey: hotkey.map(|h| h.to_string()), enabled }
}

fn bind(hotkey: &str, action: ShortcutAction) -> ShortcutBinding {
    ShortcutBinding { hotkey: hotkey.to_string(), action }
}

#[test]
fn boss_list_lines() {
    let items = list_bosses(&bosses());
    assert_eq!(items.len(), 2);
    assert_eq!(items[0].id, "zakum");
    assert_eq!(items[0].name, "Zakum");
    assert_eq!(items[0].description, "Zakum fight");
    assert_eq!(items[0].timer_count, 2);
    assert_eq!(items[1].timer_count, 1);
}

#[test]
fn selecting_an_unknown_boss_fails() {
    let mut e = TimerEngine::new();
    let r = select_boss(&bosses(), &AppSettings::default(), &mut e, &"horntail".to_string());
    assert_eq!(r.err(), Some("Boss 'horntail' not found".to_string()));
}

#[test]
fn selecting_a_boss_loads_its_visible_timers() {
    let mut st = AppSettings::default();
    st.hide_timer("zakum".to_string(), "body".to_string());
    st.toggle_mute_timer("zakum".to_string(), "arm".to_string());
    st.save_timer_order("zakum".to_string(), vec!["body".to_string(), "arm".to_string()]);
    st.set_mini_mode(true);
    let mut e = TimerEngine::new();
    e.load_timer_defs(vec![def("old", None)]);
    e.start_timer(&"old".to_string()).unwrap();
    let sel = select_boss(&bosses(), &st, &mut e, &"zakum".to_string()).unwrap();
    assert_eq!(sel.config, bosses()[0].1);
    assert_eq!(sel.hidden_timers, vec!["body".to_string()]);
    assert_eq!(sel.muted_timers, vec!["arm".to_string()]);
    assert!(sel.mini_mode);
    assert_eq!(sel.timer_order, vec!["body".to_string(), "arm".to_string()]);
    assert!(e.get_timers().is_empty());
    assert!(e.start_timer(&"arm".to_string()).is_ok());
    assert!(e.start_timer(&"body".to_string()).is_err());
    assert!(e.start_timer(&"old".to_string()).is_err());
    assert!(e.is_muted("arm"));
}

#[test]
fn reloading_visible_definitions_after_hiding() {
    let mut st = AppSettings::default();
    let mut e = TimerEngine::new();
    select_boss(&bosses(), &st, &mut e, &"zakum".to_string()).unwrap();
    st.hide_timer("zakum".to_string(), "arm".to_string());
    assert!(reload_visible_defs(&bosses(), &st, &mut e, &"zakum".to_string()));
    assert!(e.start_timer(&"arm".to_string()).is_err());
    st.reset_hidden_timers("zakum");
    assert!(reload_visible_defs(&bosses(), &st, &mut e, &"zakum".to_string()));
    assert!(e.start_timer(&"arm".to_string()).is_ok());
    assert!(!reload_visible_defs(&bosses(), &st, &mut e, &"none".to_string()));
}

#[test]
fn muted_set_follows_the_active_boss() {
    let mut st = AppSettings::default();
    st.toggle_mute_timer("lotus".to_string(), "blade".to_string());
    let mut e = TimerEngine::new();
    sync_muted_defs(&st, &mut e, Some(&"lotus".to_string()));
    assert!(e.is_muted("blade"));
    sync_muted_defs(&st, &mut e, None);
    assert!(e.is_muted("blade"));
    sync_muted_defs(&st, &mut e, Some(&"zakum".to_string()));
    assert!(!e.is_muted("blade"));
}

#[test]
fn boss_hotkeys_of_a_known_boss() {
    let mut st = AppSettings::default();
    st.hotkeys.push(("zakum".to_string(), vec![("body".to_string(), "F8".to_string())]));
    let info = boss_hotkeys_for(&bosses(), &st, &"zakum".to_string()).unwrap();
    assert_eq!(info.len(), 2);
    assert_eq!(info[1].effective_hotkey, Some("F8".to_string()));
    assert_eq!(info[1].default_hotkey, Some("F2".to_string()));
    assert_eq!(boss_hotkeys_for(&bosses(), &st, &"x".to_string()).err(), Some("Boss 'x' not found".to_string()));
}

#[test]
fn active_boss_is_found_by_id() {
    assert_eq!(active_boss_index(&bosses(), Some(&"lotus".to_string())), Some(1));
    assert_eq!(active_boss_index(&bosses(), Some(&"x".to_string())), None);
    assert_eq!(active_boss_index(&bosses(), None), None);
}

#[test]
fn listener_running_leaves_buffs_out_of_the_plan() {
    let st = AppSettings::default();
    let buffs = vec![buff("x", Some("F5"), true)];
    let with = current_shortcuts_plan(false, None, None, &st, &buffs);
    let without = current_shortcuts_plan(true, None, None, &st, &buffs);
    assert_eq!(with.len(), 3);
    assert_eq!(without.len(), 2);
}

#[test]
fn refreshing_buffs_loads_their_definitions() {
    let st = AppSettings::default();
    let mut e = TimerEngine::new();
    let mut l = KeyListener::new();
    let buffs = vec![buff("x", Some("F5"), true), buff("y", Some("F6"), false)];
    let plan = refresh_buff_shortcuts(&mut e, &mut l, &buffs, &st, &bosses(), Some(&"zakum".to_string()));
    assert_eq!(
        plan,
        vec![
            bind("Ctrl+0", ShortcutAction::StopAll),
            bind("Alt+Home", ShortcutAction::BackToMain),
            bind("F1", ShortcutAction::BossTimer("arm".to_string())),
            bind("F2", ShortcutAction::BossTimer("body".to_string())),
            bind("F5", ShortcutAction::Buff("x".to_string())),
        ]
    );
    assert!(e.start_timer(&"buff_x".to_string()).is_ok());
    assert!(e.start_timer(&"buff_y".to_string()).is_err());
    assert_eq!(l.buff_for_key(96, false, false, false), None);
}

#[test]
fn refreshing_while_listening_updates_the_listener() {
    let st = AppSettings::default();
    let mut e = TimerEngine::new();
    let mut l = KeyListener::new();
    l.tap_started();
    let buffs = vec![buff("x", Some("F5"), true)];
    let plan = refresh_buff_shortcuts(&mut e, &mut l, &buffs, &st, &bosses(), None);
    assert_eq!(plan.len(), 2);
    assert_eq!(l.buff_for_key(96, false, false, false), Some("x".to_string()));
}

#[test]
fn starting_buff_monitoring() {
    let st = AppSettings::default();
    let mut l = KeyListener::new();
    let buffs = vec![buff("x", Some("F5"), true)];
    let plan = start_buff_monitoring(&mut l, &buffs, &st, &bosses(), Some(&"lotus".to_string())).unwrap();
    assert_eq!(plan.len(), 2);
    assert!(l.is_monitoring_requested());
    assert_eq!(l.buff_for_key(96, false, false, false), Some("x".to_string()));
    l.tap_started();
    assert!(start_buff_monitoring(&mut l, &buffs, &st, &bosses(), None).is_none());
}

#[test]
fn enabling_shortcuts() {
    let st = AppSettings::default();
    let buffs = vec![buff("x", Some("F5"), true)];
    assert!(matches!(enable_shortcuts_plan(true, false, &bosses(), None, &st, &buffs), ShortcutChange::Keep));
    assert!(matches!(
        enable_shortcuts_plan(false, false, &bosses(), Some(&"nope".to_string()), &st, &buffs),
        ShortcutChange::Keep
    ));
    match enable_shortcuts_plan(false, true, &bosses(), Some(&"zakum".to_string()), &st, &buffs) {
        ShortcutChange::Replace(p) => assert_eq!(p.len(), 4),
        ShortcutChange::Keep => panic!("expected a plan"),
    }
    match enable_shortcuts_plan(false, true, &bosses(), None, &st, &buffs) {
        ShortcutChange::Replace(p) => assert_eq!(p.len(), 3),
        ShortcutChange::Keep => panic!("expected a plan"),
    }
}

#[test]
fn tray_menu_ids_name_bosses() {
    assert_eq!(boss_menu_id("zakum"), "boss_zakum");
    assert_eq!(boss_id_from_menu("boss_zakum"), Some("zakum".to_string()));
    assert_eq!(boss_id_from_menu("boss_"), Some(String::new()));
    assert_eq!(boss_id_from_menu("quit"), None);
    assert_eq!(boss_id_from_menu("bos"), None);
    assert_eq!(boss_id_from_menu("Boss_x"), None);
    assert_eq!(boss_id_from_menu(&boss_menu_id("青龍")), Some("青龍".to_string()));
}

#[test]
fn choosing_a_boss_from_the_tray() {
    let mut st = AppSettings::default();
    st.hide_timer("zakum".to_string(), "arm".to_string());
    st.toggle_mute_timer("zakum".to_string(), "body".to_string());
    let mut e = TimerEngine::new();
    e.load_timer_defs(vec![def("old", None)]);
    e.start_timer(&"old".to_string()).unwrap();
    assert!(!select_boss_from_menu(&bosses(), &st, &mut e, &"x".to_string()));
    assert_eq!(e.get_timers().len(), 1);
    assert!(select_boss_from_menu(&bosses(), &st, &mut e, &"zakum".to_string()));
    assert!(e.get_timers().is_empty());
    assert!(e.start_timer(&"arm".to_string()).is_err());
    assert!(e.start_timer(&"body".to_string()).is_ok());
    assert!(!e.is_muted("body"));
}

#[test]
fn disabling_a_buff_stops_its_timers() {
    let mut config = BuffConfig { buffs: vec![buff("x", Some("F5"), true)] };
    let mut e = TimerEngine::new();
    e.load_buff_defs(buff_timer_defs(&config.buffs));
    e.trigger_buff_timer("x").unwrap();
    let keep = BuffUpdate { id: "x".to_string(), name: None, duration_secs: Some(20), hotkey: None, enabled: Some(true) };
    apply_buff_update(&mut config, &mut e, keep).unwrap();
    assert_eq!(e.get_timers().len(), 1);
    let bad = BuffUpdate { id: "x".to_string(), name: None, duration_secs: Some(0), hotkey: None, enabled: Some(false) };
    assert!(apply_buff_update(&mut config, &mut e, bad).is_err());
    assert_eq!(e.get_timers().len(), 1);
    let off = BuffUpdate { id: "x".to_string(), name: None, duration_secs: None, hotkey: None, enabled: Some(false) };
    let b = apply_buff_update(&mut config, &mut e, off).unwrap();
    assert!(!b.enabled);
    assert!(e.get_timers().is_empty());
}

#[test]
fn deleting_a_buff_stops_its_timers() {
    let mut config = BuffConfig { buffs: vec![buff("x", Some("F5"), true)] };
    let mut e = TimerEngine::new();
    e.load_buff_defs(buff_timer_defs(&config.buffs));
    e.trigger_buff_timer("x").unwrap();
    assert_eq!(remove_buff(&mut config, &mut e, "y"), Err("Buff 'y' not found".to_string()));
    assert_eq!(e.get_timers().len(), 1);
    assert_eq!(remove_buff(&mut config, &mut e, "x"), Ok(()));
    assert!(config.buffs.is_empty());
    assert!(e.get_timers().is_empty());
}
