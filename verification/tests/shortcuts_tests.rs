use artale_timer::boss_config::{BossConfig, BossInfo, DisplayConfig, TimerDef};
use artale_timer::buff_config::BuffItem;
use artale_timer::settings::AppSettings;
use artale_timer::shortcuts::{
    all_shortcuts_plan, boss_shortcuts_plan, buff_shortcuts_only_plan, check_hotkey_conflicts,
    shortcuts_without_buffs_plan, ShortcutAction, ShortcutBinding,
};

fn def(id: &str, hotkey: Option<&str>) -> TimerDef {
    TimerDef {
        id: id.to_string(),
        name: id.to_string(),
        icon: "i".to_string(),
        duration_ms: 1000,
        hotkey: hotkey.map(|h| h.to_string()),
        chain_to: None,
        color: "c".to_string(),
        warning_ms: 0,
        repeat: false,
        timer_type: None,
        description: None,
    }
}

fn boss(timers: Vec<TimerDef>) -> BossConfig {
    BossConfig {
        boss: BossInfo { name: "Zakum".to_string(), description: String::new() },
        timers,
        display: DisplayConfig::default(),
    }
}

fn buff(id: &str, hotkey: Option<&str>, enabled: bool) -> BuffItem {
    BuffItem { id: id.to_string(), name: id.to_string(), duration_secs: 10, hotkey: hotkey.map(|h| h.to_string()), enabled }
}

fn bind(hotkey: &str, action: ShortcutAction) -> ShortcutBinding {
    ShortcutBinding { hotkey: hotkey.to_string(), action }
}

fn boss_timer(id: &str) -> ShortcutAction {
    ShortcutAction::BossTimer(id.to_string())
}

fn buff_action(id: &str) -> ShortcutAction {
    ShortcutAction::Buff(id.to_string())
}

#[test]
fn plan_registers_globals_visible_timers_and_buffs() {
    let mut st = AppSettings::default();
    st.hide_timer("z".to_string(), "hidden".to_string());
    st.hotkeys.push(("z".to_string(), vec![("b".to_string(), "F9".to_string())]));
    let config = boss(vec![def("a", Some("F1")), def("hidden", Some("F2")), def("b", Some("F3")), def("c", None)]);
    let buffs = vec![
        buff("x", Some("F2"), true),
        buff("y", Some("F1"), true),
        buff("w", Some(""), true),
        buff("v", Some("F4"), false),
        buff("u", Some("Ctrl+0"), true),
    ];
    let plan = all_shortcuts_plan(Some(&"z".to_string()), Some(&config), &st, &buffs);
    assert_eq!(
        plan,
        vec![
            bind("Ctrl+0", ShortcutAction::StopAll),
            bind("Alt+Home", ShortcutAction::BackToMain),
            bind("F1", boss_timer("a")),
            bind("F9", boss_timer("b")),
            bind("F2", buff_action("x")),
        ]
    );
}

#[test]
fn duplicate_timer_keys_keep_the_first() {
    let st = AppSettings::default();
    let config = boss(vec![def("a", Some("F1")), def("b", Some("F1")), def("c", Some("Alt+Home"))]);
    let plan = all_shortcuts_plan(Some(&"z".to_string()), Some(&config), &st, &vec![]);
    assert_eq!(
        plan,
        vec![
            bind("Ctrl+0", ShortcutAction::StopAll),
            bind("Alt+Home", ShortcutAction::BackToMain),
            bind("F1", boss_timer("a")),
        ]
    );
}

#[test]
fn without_a_boss_only_globals_and_buffs() {
    let st = AppSettings::default();
    let config = boss(vec![def("a", Some("F1"))]);
    let buffs = vec![buff("x", Some("F2"), true)];
    let expected = vec![
        bind("Ctrl+0", ShortcutAction::StopAll),
        bind("Alt+Home", ShortcutAction::BackToMain),
        bind("F2", buff_action("x")),
    ];
    assert_eq!(all_shortcuts_plan(None, Some(&config), &st, &buffs), expected);
    assert_eq!(all_shortcuts_plan(Some(&"z".to_string()), None, &st, &buffs), expected);
    assert_eq!(buff_shortcuts_only_plan(&st, &buffs), expected);
}

#[test]
fn plan_without_buffs_leaves_them_out() {
    let st = AppSettings::default();
    let config = boss(vec![def("a", Some("F1"))]);
    let plan = shortcuts_without_buffs_plan(Some(&"z".to_string()), Some(&config), &st);
    assert_eq!(
        plan,
        vec![
            bind("Ctrl+0", ShortcutAction::StopAll),
            bind("Alt+Home", ShortcutAction::BackToMain),
            bind("F1", boss_timer("a")),
        ]
    );
}

#[test]
fn equal_global_keys_are_both_planned() {
    let mut st = AppSettings::default();
    st.back_hotkey = "Ctrl+0".to_string();
    let plan = buff_shortcuts_only_plan(&st, &vec![buff("x", Some("Ctrl+0"), true)]);
    assert_eq!(plan, vec![bind("Ctrl+0", ShortcutAction::StopAll), bind("Ctrl+0", ShortcutAction::BackToMain)]);
}

#[test]
fn older_scheme_keeps_every_timer_key() {
    let overrides = vec![("b".to_string(), "F7".to_string())];
    let plan = boss_shortcuts_plan(
        &vec![def("a", Some("F1")), def("b", Some("F1")), def("c", None), def("d", Some("F1"))],
        &overrides,
        &"Ctrl+0".to_string(),
        &"Alt+Home".to_string(),
    );
    assert_eq!(
        plan,
        vec![
            bind("Ctrl+0", ShortcutAction::StopAll),
            bind("Alt+Home", ShortcutAction::BackToMain),
            bind("F1", boss_timer("a")),
            bind("F7", boss_timer("b")),
            bind("F1", boss_timer("d")),
        ]
    );
}

#[test]
fn conflicts_are_buff_keys_already_in_use() {
    let st = AppSettings::default();
    let config = boss(vec![def("a", Some("F1")), def("b", Some("F2"))]);
    let overrides = vec![("b".to_string(), "F3".to_string())];
    let buffs = vec![
        buff("x", Some("F1"), true),
        buff("y", Some("F2"), true),
        buff("z", Some("F3"), true),
        buff("w", Some("Ctrl+0"), true),
        buff("v", Some("F1"), false),
        buff("u", Some(""), true),
        buff("t", Some("F3"), true),
    ];
    let conflicts = check_hotkey_conflicts(Some(&config), &overrides, &buffs, &st);
    assert_eq!(conflicts, vec!["F1".to_string(), "F3".to_string(), "Ctrl+0".to_string(), "F3".to_string()]);
    let conflicts = check_hotkey_conflicts(None, &overrides, &buffs, &st);
    assert_eq!(conflicts, vec!["Ctrl+0".to_string()]);
}
