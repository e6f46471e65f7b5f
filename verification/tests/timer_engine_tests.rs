use artale_timer::boss_config::TimerDef;
use artale_timer::timer_engine::{Timer, TimerEngine, TimerExpiredEvent, TimerState};

fn def(id: &str, name: &str, duration_ms: u64, warning_ms: u64, chain_to: Option<&str>, repeat: bool) -> TimerDef {
    TimerDef {
        id: id.to_string(),
        name: name.to_string(),
        icon: "⏱".to_string(),
        duration_ms,
        hotkey: None,
        chain_to: chain_to.map(|c| c.to_string()),
        color: "#00FF00".to_string(),
        warning_ms,
        repeat,
        timer_type: None,
        description: None,
    }
}

fn engine_with(defs: Vec<TimerDef>) -> TimerEngine {
    let mut e = TimerEngine::new();
    e.load_timer_defs(defs);
    e
}

fn only(e: &TimerEngine) -> Timer {
    let ts = e.get_timers();
    assert_eq!(ts.len(), 1);
    ts[0].clone()
}

#[test]
fn a_new_engine_is_empty() {
    let e = TimerEngine::new();
    assert!(e.get_timers().is_empty());
    assert!(!e.is_muted("x"));
}

#[test]
fn starting_an_unknown_definition_fails() {
    let mut e = TimerEngine::new();
    let r = e.start_timer(&"nope".to_string());
    assert_eq!(r, Err("Timer definition 'nope' not found".to_string()));
    assert!(e.get_timers().is_empty());
}

#[test]
fn starting_a_timer_copies_its_definition() {
    let mut e = engine_with(vec![def("arm", "Arm", 10_000, 3_000, Some("body"), true)]);
    let id = e.start_timer(&"arm".to_string()).unwrap();
    assert_eq!(id.len(), 36);
    let t = only(&e);
    assert_eq!(t.id, id);
    assert_eq!(t.name, "Arm");
    assert_eq!(t.remaining_ms, 10_000);
    assert_eq!(t.duration_ms, 10_000);
    assert_eq!(t.state, TimerState::Running);
    assert_eq!(t.chain_to, Some("body".to_string()));
    assert_eq!(t.def_id, "arm");
    assert!(!t.warning_played);
    assert!(t.repeat);
    assert_eq!(t.overdue_ms, 0);
}

#[test]
fn each_start_gets_its_own_id() {
    let mut e = engine_with(vec![def("arm", "Arm", 10_000, 3_000, None, false)]);
    let a = e.start_timer(&"arm".to_string()).unwrap();
    let b = e.start_timer(&"arm".to_string()).unwrap();
    assert_ne!(a, b);
    assert_eq!(e.get_timers().len(), 2);
}

#[test]
fn starting_with_an_existing_id_replaces_that_timer() {
    let mut e = engine_with(vec![def("a", "A", 1_000, 0, None, false), def("b", "B", 2_000, 0, None, false)]);
    e.start_timer_with_id(&"a".to_string(), "t1".to_string()).unwrap();
    e.start_timer_with_id(&"b".to_string(), "t1".to_string()).unwrap();
    let t = only(&e);
    assert_eq!(t.name, "B");
}

#[test]
fn later_definitions_replace_earlier_ones() {
    let mut e = engine_with(vec![def("a", "First", 1_000, 0, None, false), def("a", "Second", 2_000, 0, None, false)]);
    e.start_timer(&"a".to_string()).unwrap();
    assert_eq!(only(&e).name, "Second");
    e.load_timer_defs(vec![]);
    assert!(e.start_timer(&"a".to_string()).is_err());
}

#[test]
fn boss_definitions_come_before_buff_definitions() {
    let mut e = TimerEngine::new();
    e.load_buff_defs(vec![def("x", "Buff", 1_000, 0, None, false)]);
    e.start_timer(&"x".to_string()).unwrap();
    e.load_timer_defs(vec![def("x", "Boss", 1_000, 0, None, false)]);
    e.stop_all();
    e.start_timer(&"x".to_string()).unwrap();
    assert_eq!(only(&e).name, "Boss");
    assert_eq!(e.find_def("x").map(|d| d.name), Some("Boss".to_string()));
    assert!(e.find_def("y").is_none());
}

#[test]
fn stopping_a_timer_removes_it() {
    let mut e = engine_with(vec![def("a", "A", 1_000, 0, None, false)]);
    let id = e.start_timer(&"a".to_string()).unwrap();
    assert!(e.stop_timer(&id));
    assert!(e.get_timers().is_empty());
    assert!(!e.stop_timer(&id));
}

#[test]
fn stop_all_removes_everything() {
    let mut e = engine_with(vec![def("a", "A", 1_000, 0, None, false)]);
    e.start_timer(&"a".to_string()).unwrap();
    e.start_timer(&"a".to_string()).unwrap();
    e.stop_all();
    assert!(e.get_timers().is_empty());
}

#[test]
fn a_tick_counts_down_and_warns_then_expires() {
    let mut e = engine_with(vec![def("a", "A", 1_000, 300, None, false)]);
    let id = e.start_timer(&"a".to_string()).unwrap();
    let (u, expired, warnings) = e.tick(600);
    assert_eq!(u.timers.len(), 1);
    assert_eq!(u.timers[0].remaining_ms, 400);
    assert_eq!(u.timers[0].state, TimerState::Running);
    assert!(expired.is_empty() && warnings.is_empty());

    let (u, expired, warnings) = e.tick(100);
    assert_eq!(u.timers[0].remaining_ms, 300);
    assert_eq!(u.timers[0].state, TimerState::Warning);
    assert!(u.timers[0].warning_played);
    assert!(expired.is_empty());
    assert_eq!(warnings, vec!["a".to_string()]);

    let (_, _, warnings) = e.tick(100);
    assert!(warnings.is_empty());

    let (u, expired, _) = e.tick(250);
    assert_eq!(u.timers[0].remaining_ms, 0);
    assert_eq!(u.timers[0].state, TimerState::Expired);
    assert_eq!(u.timers[0].overdue_ms, 50);
    assert_eq!(
        expired,
        vec![TimerExpiredEvent { id: id.clone(), name: "A".to_string(), chain_to: None, def_id: "a".to_string(), repeat: false }]
    );

    let (u, expired, _) = e.tick(100);
    assert!(expired.is_empty());
    assert_eq!(u.timers[0].overdue_ms, 150);
    assert_eq!(u.timers[0].remaining_ms, 0);
}

#[test]
fn warning_ids_are_not_repeated_for_one_definition() {
    let mut e = engine_with(vec![def("a", "A", 1_000, 500, None, false)]);
    e.start_timer(&"a".to_string()).unwrap();
    e.start_timer(&"a".to_string()).unwrap();
    let (_, _, warnings) = e.tick(600);
    assert_eq!(warnings, vec!["a".to_string(), "a".to_string()]);
}

#[test]
fn a_timer_can_expire_without_warning() {
    let mut e = engine_with(vec![def("a", "A", 100, 50, None, false)]);
    e.start_timer(&"a".to_string()).unwrap();
    let (u, expired, warnings) = e.tick(100);
    assert_eq!(u.timers[0].state, TimerState::Expired);
    assert_eq!(u.timers[0].overdue_ms, 0);
    assert_eq!(expired.len(), 1);
    assert!(warnings.is_empty());
}

#[test]
fn cleanup_removes_timers_expired_long_enough() {
    let mut e = engine_with(vec![def("a", "A", 100, 0, None, false), def("b", "B", 10_000, 0, None, false)]);
    e.start_timer(&"a".to_string()).unwrap();
    e.start_timer(&"b".to_string()).unwrap();
    e.tick(100);
    e.cleanup_expired(3_000);
    assert_eq!(e.get_timers().len(), 2);
    for _ in 0..29 {
        e.tick(100);
    }
    e.cleanup_expired(3_000);
    assert_eq!(e.get_timers().len(), 2);
    e.tick(100);
    e.cleanup_expired(3_000);
    let ts = e.get_timers();
    assert_eq!(ts.len(), 1);
    assert_eq!(ts[0].name, "B");
}

#[test]
fn running_timers_are_found_by_definition_name() {
    let mut e = engine_with(vec![def("a", "Same", 1_000, 0, None, false), def("b", "Same", 5_000, 0, None, false)]);
    assert!(!e.has_running_timers_for_def("a"));
    e.start_timer(&"b".to_string()).unwrap();
    assert!(e.has_running_timers_for_def("a"));
    assert!(!e.has_running_timers_for_def("unknown"));
    e.stop_by_def_id("a");
    assert!(e.get_timers().is_empty());
}

#[test]
fn expired_timers_are_not_running() {
    let mut e = engine_with(vec![def("a", "A", 100, 0, None, false)]);
    e.start_timer(&"a".to_string()).unwrap();
    e.tick(200);
    assert!(!e.has_running_timers_for_def("a"));
}

#[test]
fn stop_expired_by_def_id_keeps_live_timers() {
    let mut e = engine_with(vec![def("a", "A", 100, 0, None, false), def("long", "A", 10_000, 0, None, false)]);
    e.start_timer(&"a".to_string()).unwrap();
    e.tick(200);
    e.start_timer(&"a".to_string()).unwrap();
    e.stop_expired_by_def_id("a");
    let ts = e.get_timers();
    assert_eq!(ts.len(), 1);
    assert_eq!(ts[0].state, TimerState::Running);
}

#[test]
fn chained_timer_starts_its_target() {
    let mut e = engine_with(vec![def("a", "A", 100, 0, Some("b"), false), def("b", "B", 5_000, 0, None, false)]);
    e.start_timer(&"a".to_string()).unwrap();
    let (_, expired, _) = e.tick(100);
    e.handle_expired(&expired);
    let t = only(&e);
    assert_eq!(t.name, "B");
    assert_eq!(t.def_id, "b");
    assert_eq!(t.state, TimerState::Running);
}

#[test]
fn repeating_timer_starts_again() {
    let mut e = engine_with(vec![def("a", "A", 100, 0, None, true)]);
    let first = e.start_timer(&"a".to_string()).unwrap();
    let (_, expired, _) = e.tick(150);
    e.handle_expired(&expired);
    let t = only(&e);
    assert_ne!(t.id, first);
    assert_eq!(t.remaining_ms, 100);
}

#[test]
fn plain_expiry_leaves_the_timer() {
    let mut e = engine_with(vec![def("a", "A", 100, 0, None, false)]);
    e.start_timer(&"a".to_string()).unwrap();
    let (_, expired, _) = e.tick(150);
    e.handle_expired(&expired);
    assert_eq!(only(&e).state, TimerState::Expired);
}

#[test]
fn restarting_with_given_ids_uses_them() {
    let mut e = engine_with(vec![def("a", "A", 100, 0, Some("a"), false)]);
    e.start_timer_with_id(&"a".to_string(), "t0".to_string()).unwrap();
    let (_, expired, _) = e.tick(100);
    e.restart_expired_with_ids(&expired, &vec!["t1".to_string()]);
    assert_eq!(only(&e).id, "t1");
}

#[test]
fn advance_reports_sounds_and_restarts() {
    let mut e = engine_with(vec![
        def("a", "A", 100, 0, Some("b"), false),
        def("b", "B", 1_000, 950, None, false),
        def("c", "C", 100, 0, None, false),
    ]);
    e.set_muted_defs(vec!["c".to_string()]);
    assert!(e.is_muted("c"));
    e.start_timer(&"a".to_string()).unwrap();
    e.start_timer(&"c".to_string()).unwrap();
    let report = e.advance(100, 3_000);
    assert_eq!(report.expired.len(), 2);
    assert_eq!(report.expired_alerts, vec![true, false]);
    assert!(!report.play_warning);
    assert_eq!(report.update.timers.len(), 2);
    let ts = e.get_timers();
    assert_eq!(ts.len(), 2);
    assert!(ts.iter().any(|t| t.name == "B" && t.state == TimerState::Running));
    assert!(ts.iter().any(|t| t.name == "C" && t.state == TimerState::Expired));
    let report = e.advance(100, 3_000);
    assert!(report.play_warning);
    assert_eq!(report.warning_def_ids, vec!["b".to_string()]);
}

#[test]
fn muted_warnings_do_not_sound() {
    let mut e = engine_with(vec![def("b", "B", 1_000, 950, None, false)]);
    e.set_muted_defs(vec!["b".to_string()]);
    e.start_timer(&"b".to_string()).unwrap();
    let report = e.advance(100, 3_000);
    assert_eq!(report.warning_def_ids, vec!["b".to_string()]);
    assert!(!report.play_warning);
}

#[test]
fn advance_clears_timers_expired_long_enough() {
    let mut e = engine_with(vec![def("a", "A", 100, 0, None, false)]);
    e.start_timer(&"a".to_string()).unwrap();
    e.advance(100, 200);
    assert_eq!(e.get_timers().len(), 1);
    e.advance(100, 200);
    assert_eq!(e.get_timers().len(), 1);
    e.advance(100, 200);
    assert!(e.get_timers().is_empty());
}

#[test]
fn triggering_restarts_a_running_timer() {
    let mut e = engine_with(vec![def("a", "A", 1_000, 0, None, false)]);
    let first = e.trigger_timer(&"a".to_string()).unwrap();
    e.tick(500);
    let second = e.trigger_timer(&"a".to_string()).unwrap();
    assert_ne!(first, second);
    let t = only(&e);
    assert_eq!(t.id, second);
    assert_eq!(t.remaining_ms, 1_000);
}

#[test]
fn triggering_keeps_expired_timers_of_the_name() {
    let mut e = engine_with(vec![def("a", "A", 100, 0, None, false)]);
    e.trigger_timer(&"a".to_string()).unwrap();
    e.tick(100);
    e.trigger_timer(&"a".to_string()).unwrap();
    let ts = e.get_timers();
    assert_eq!(ts.len(), 2);
    assert_eq!(ts.iter().filter(|t| t.state != TimerState::Expired).count(), 1);
    assert!(e.trigger_timer(&"zz".to_string()).is_err());
}

#[test]
fn buff_key_clears_expired_buff_timers() {
    let mut e = TimerEngine::new();
    e.load_buff_defs(vec![def("buff_1", "Haste", 100, 0, None, false)]);
    e.trigger_buff_timer("1").unwrap();
    e.tick(100);
    e.trigger_buff_timer("1").unwrap();
    assert_eq!(e.get_timers().len(), 2);
    e.restart_buff_from_key("1").unwrap();
    let t = only(&e);
    assert_eq!(t.def_id, "buff_1");
    assert_eq!(t.state, TimerState::Running);
    assert_eq!(e.restart_buff_from_key("2"), Err("Timer definition 'buff_2' not found".to_string()));
}

fn is_v4_text(s: &str) -> bool {
    let c: Vec<char> = s.chars().collect();
    c.len() == 36
        && [8, 13, 18, 23].iter().all(|&i| c[i] == '-')
        && c[14] == '4'
        && "89ab".contains(c[19])
        && c.iter().enumerate().all(|(i, ch)| [8, 13, 18, 23].contains(&i) || "0123456789abcdef".contains(*ch))
}

#[test]
fn fresh_timer_ids_are_version_4_uuids() {
    let mut e = engine_with(vec![def("a", "A", 100, 0, None, true)]);
    let id = e.start_timer(&"a".to_string()).unwrap();
    assert!(is_v4_text(&id), "{}", id);
    let (_, expired, _) = e.tick(100);
    e.handle_expired(&expired);
    let t = only(&e);
    assert!(is_v4_text(&t.id), "{}", t.id);
    assert_ne!(t.id, id);
}
