use artale_timer::boss_config::{
    default_color, default_icon, default_opacity_bits, default_warning_ms, sort_bosses, validate_config,
    BossConfig, BossInfo, ConfigError, DisplayConfig, TimerDef,
};

fn timer(id: &str, duration_ms: u64, chain_to: Option<&str>) -> TimerDef {
    TimerDef {
        id: id.to_string(),
        name: format!("Timer {}", id),
        icon: default_icon(),
        duration_ms,
        hotkey: None,
        chain_to: chain_to.map(|c| c.to_string()),
        color: default_color(),
        warning_ms: default_warning_ms(),
        repeat: false,
        timer_type: None,
        description: None,
    }
}

fn boss(name: &str, timers: Vec<TimerDef>) -> BossConfig {
    BossConfig {
        boss: BossInfo { name: name.to_string(), description: String::new() },
        timers,
        display: DisplayConfig::default(),
    }
}

#[test]
fn defaults_match_the_documented_values() {
    assert_eq!(default_icon(), "⏱");
    assert_eq!(default_color(), "#00FF00");
    assert_eq!(default_warning_ms(), 3000);
    assert_eq!(f64::from_bits(default_opacity_bits()), 0.85);
    assert_eq!(DisplayConfig::default().opacity_bits, 0.85f64.to_bits());
}

#[test]
fn valid_config_is_accepted() {
    let c = boss("Zakum", vec![timer("a", 1000, Some("b")), timer("b", 500, None)]);
    assert_eq!(validate_config(&c), Ok(()));
}

#[test]
fn empty_boss_name_is_refused_first() {
    let c = boss("", vec![timer("a", 0, None)]);
    assert_eq!(validate_config(&c), Err(ConfigError::EmptyBossName));
}

#[test]
fn zero_duration_is_refused() {
    let c = boss("Zakum", vec![timer("a", 1000, None), timer("b", 0, None)]);
    assert_eq!(validate_config(&c), Err(ConfigError::InvalidDuration { timer_id: "b".to_string() }));
}

#[test]
fn unknown_chain_target_is_refused() {
    let c = boss("Zakum", vec![timer("a", 1000, Some("missing"))]);
    assert_eq!(
        validate_config(&c),
        Err(ConfigError::UnknownChainTarget { timer_id: "a".to_string(), chain_to: "missing".to_string() })
    );
}

#[test]
fn first_faulty_timer_is_reported() {
    let c = boss("Zakum", vec![timer("a", 1000, Some("x")), timer("b", 0, None)]);
    assert_eq!(
        validate_config(&c),
        Err(ConfigError::UnknownChainTarget { timer_id: "a".to_string(), chain_to: "x".to_string() })
    );
}

#[test]
fn timer_may_chain_to_itself() {
    let c = boss("Zakum", vec![timer("a", 1000, Some("a"))]);
    assert_eq!(validate_config(&c), Ok(()));
}

#[test]
fn bosses_are_sorted_by_file_stem() {
    let entries = vec![
        ("hard_lotus".to_string(), 2),
        ("chaos_crimson_queen".to_string(), 1),
        ("Zakum".to_string(), 0),
        ("hard".to_string(), 3),
    ];
    let sorted = sort_bosses(entries);
    let names: Vec<&str> = sorted.iter().map(|e| e.0.as_str()).collect();
    assert_eq!(names, vec!["Zakum", "chaos_crimson_queen", "hard", "hard_lotus"]);
}

#[test]
fn sorting_keeps_equal_names_in_order() {
    let entries = vec![("b".to_string(), 1), ("a".to_string(), 2), ("b".to_string(), 3)];
    let sorted = sort_bosses(entries);
    assert_eq!(sorted, vec![("a".to_string(), 2), ("b".to_string(), 1), ("b".to_string(), 3)]);
}

#[test]
fn sorting_an_empty_list_gives_an_empty_list() {
    let sorted: Vec<(String, u8)> = sort_bosses(Vec::new());
    assert!(sorted.is_empty());
}

#[test]
fn sorting_orders_by_code_point() {
    let entries = vec![("é".to_string(), 0), ("z".to_string(), 1), ("Z".to_string(), 2)];
    let sorted = sort_bosses(entries);
    let mut expected = vec!["é", "z", "Z"];
    expected.sort();
    let names: Vec<&str> = sorted.iter().map(|e| e.0.as_str()).collect();
    assert_eq!(names, expected);
}
