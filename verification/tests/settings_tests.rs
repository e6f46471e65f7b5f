use artale_timer::boss_config::TimerDef;
use artale_timer::settings::{
    boss_hotkeys, default_back_hotkey, default_bg_opacity_bits, default_font_scale_bits, default_icon_scale_bits,
    default_pause_hotkey, default_stop_all_hotkey, effective_hotkey, visible_timers, AppSettings,
};

fn def(id: &str, hotkey: Option<&str>) -> TimerDef {
    TimerDef {
        id: id.to_string(),
        name: id.to_uppercase(),
        icon: "i".to_string(),
        duration_ms: 1000,
        hotkey: hotkey.map(|h| h.to_string()),
        chain_to: None,
        color: "c".to_string(),
        warning_ms: 0,
        repeat: false,
        timer_type: None,
        description: None,
    }
}

fn s(v: &[&str]) -> Vec<String> {
    v.iter().map(|x| x.to_string()).collect()
}

#[test]
fn default_settings() {
    let d = AppSettings::default();
    assert_eq!(d.back_hotkey, "Alt+Home");
    assert_eq!(d.stop_all_hotkey, "Ctrl+0");
    assert_eq!(d.pause_hotkey, "Ctrl+Backquote");
    assert!(d.hotkeys.is_empty() && d.hidden_timers.is_empty() && d.muted_timers.is_empty());
    assert!(d.timer_orders.is_empty());
    assert!(!d.mini_mode);
    assert_eq!(f64::from_bits(d.font_scale_bits), 1.0);
    assert_eq!(f64::from_bits(d.icon_scale_bits), 1.25);
    assert_eq!(f64::from_bits(d.bg_opacity_bits), 1.0);
    assert_eq!(default_back_hotkey(), "Alt+Home");
    assert_eq!(default_stop_all_hotkey(), "Ctrl+0");
    assert_eq!(default_pause_hotkey(), "Ctrl+Backquote");
    assert_eq!(default_font_scale_bits(), 1.0f64.to_bits());
    assert_eq!(default_icon_scale_bits(), 1.25f64.to_bits());
    assert_eq!(default_bg_opacity_bits(), 1.0f64.to_bits());
}

#[test]
fn hiding_a_timer_twice_hides_it_once() {
    let mut st = AppSettings::default();
    st.hide_timer("zakum".to_string(), "arm".to_string());
    st.hide_timer("zakum".to_string(), "arm".to_string());
    st.hide_timer("zakum".to_string(), "body".to_string());
    assert_eq!(st.hidden_for("zakum"), s(&["arm", "body"]));
    assert_eq!(st.hidden_for("lotus"), Vec::<String>::new());
}

#[test]
fn resetting_hidden_timers_shows_them_all() {
    let mut st = AppSettings::default();
    st.hide_timer("zakum".to_string(), "arm".to_string());
    st.hide_timer("lotus".to_string(), "x".to_string());
    st.reset_hidden_timers("zakum");
    assert!(st.hidden_for("zakum").is_empty());
    assert_eq!(st.hidden_for("lotus"), s(&["x"]));
    let timers = vec![def("arm", None), def("body", None)];
    assert_eq!(visible_timers(&timers, &st.hidden_for("zakum")), timers);
}

#[test]
fn toggling_mute_twice_restores_it() {
    let mut st = AppSettings::default();
    assert!(st.toggle_mute_timer("zakum".to_string(), "arm".to_string()));
    assert_eq!(st.muted_for("zakum"), s(&["arm"]));
    assert!(st.toggle_mute_timer("zakum".to_string(), "body".to_string()));
    assert!(!st.toggle_mute_timer("zakum".to_string(), "arm".to_string()));
    assert_eq!(st.muted_for("zakum"), s(&["body"]));
}

#[test]
fn toggling_takes_out_the_first_occurrence_only() {
    let mut st = AppSettings::default();
    st.muted_timers.push(("b".to_string(), s(&["x", "y", "x"])));
    assert!(!st.toggle_mute_timer("b".to_string(), "x".to_string()));
    assert_eq!(st.muted_for("b"), s(&["y", "x"]));
}

#[test]
fn later_entries_win_in_per_boss_lists() {
    let mut st = AppSettings::default();
    st.hidden_timers.push(("b".to_string(), s(&["old"])));
    st.hidden_timers.push(("b".to_string(), s(&["new"])));
    assert_eq!(st.hidden_for("b"), s(&["new"]));
}

#[test]
fn timer_order_and_mini_mode_are_recorded() {
    let mut st = AppSettings::default();
    st.save_timer_order("zakum".to_string(), s(&["b", "a"]));
    st.save_timer_order("zakum".to_string(), s(&["a", "b"]));
    assert_eq!(st.timer_order_for("zakum"), s(&["a", "b"]));
    assert!(st.timer_order_for("other").is_empty());
    st.set_mini_mode(true);
    assert!(st.mini_mode);
    st.set_mini_mode(false);
    assert!(!st.mini_mode);
}

#[test]
fn visible_timers_leave_out_the_hidden() {
    let timers = vec![def("a", None), def("b", None), def("c", None)];
    let v = visible_timers(&timers, &s(&["b", "zzz"]));
    assert_eq!(v, vec![def("a", None), def("c", None)]);
}

#[test]
fn override_replaces_a_timers_hotkey() {
    let overrides = vec![("a".to_string(), "F5".to_string())];
    assert_eq!(effective_hotkey(&overrides, &def("a", Some("F1"))), Some("F5".to_string()));
    assert_eq!(effective_hotkey(&overrides, &def("b", Some("F2"))), Some("F2".to_string()));
    assert_eq!(effective_hotkey(&overrides, &def("c", None)), None);
    assert_eq!(effective_hotkey(&overrides, &def("a", None)), Some("F5".to_string()));
}

#[test]
fn boss_hotkeys_show_default_and_effective_keys() {
    let mut st = AppSettings::default();
    st.hotkeys.push(("zakum".to_string(), vec![("a".to_string(), "F9".to_string())]));
    let overrides = st.overrides_for("zakum");
    let info = boss_hotkeys(&vec![def("a", Some("F1")), def("b", None)], &overrides);
    assert_eq!(info.len(), 2);
    assert_eq!(info[0].timer_id, "a");
    assert_eq!(info[0].timer_name, "A");
    assert_eq!(info[0].default_hotkey, Some("F1".to_string()));
    assert_eq!(info[0].effective_hotkey, Some("F9".to_string()));
    assert_eq!(info[1].effective_hotkey, None);
    assert!(st.overrides_for("lotus").is_empty());
}
