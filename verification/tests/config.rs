use swwws::config::{
    behavior_override, default_duration, default_fill_color, default_filter, default_invert_y,
    default_monitor_behavior, default_queue_size, default_resize, default_sorting,
    default_transition_angle, default_transition_bezier, default_transition_duration,
    default_transition_pos, default_transition_step, default_transition_type,
    default_transition_wave, flatten_groups, validate_groups, Angle, Config, GlobalConfig,
    MonitorBehavior, NamedOutputConfig, OutputConfig,
};
use swwws::error::{ConfigError, SwwwsError, ValidationError};
use swwws::queue::Sorting;
use swwws::time::{count_digits, parse_duration, Span};

fn angle(degrees: f32) -> Angle {
    Angle { text: degrees.to_string(), in_range: (0.0..=360.0).contains(&degrees) }
}

fn groups(list: &[&[&str]]) -> Vec<Vec<String>> {
    list.iter().map(|g| g.iter().map(|o| o.to_string()).collect()).collect()
}

fn validation_message(result: Result<(), SwwwsError>) -> String {
    match result {
        Err(SwwwsError::Config(ConfigError::Validation { message })) => message,
        other => panic!("unexpected: {:?}", other),
    }
}

fn invalid_value(result: Result<(), SwwwsError>) -> (String, String) {
    match result {
        Err(SwwwsError::Config(ConfigError::InvalidValue { field, value })) => (field, value),
        other => panic!("unexpected: {:?}", other),
    }
}

#[test]
fn test_config_validation() {
    let mut config = Config::default();

    // Test valid configuration
    assert!(config.validate().is_ok());

    // Test invalid duration
    config.global.duration = Span::from_secs(0);
    assert!(config.validate().is_err());

    // Reset and test invalid queue size
    config.global.duration = Span::from_secs(300);
    config.global.queue_size = 0;
    assert!(config.validate().is_err());
}

#[test]
fn test_output_config_merge() {
    let global = GlobalConfig {
        duration: Span::from_secs(300),
        queue_size: 10,
        sorting: Sorting::Random,
        transition_type: "wipe".to_string(),
        transition_step: 90,
        transition_angle: angle(90.0),
        transition_pos: "center".to_string(),
        transition_bezier: "0.25,0.1,0.25,1".to_string(),
        transition_duration: Span::from_millis(500),
        ..GlobalConfig::default()
    };

    let mut output = OutputConfig {
        path: Some("/test/path".to_string()),
        duration: Span::from_secs(600),
        queue_size: 5,
        sorting: Sorting::Ascending,
        transition_type: "fade".to_string(),
        transition_step: 45,
        transition_angle: angle(45.0),
        transition_pos: "top-left".to_string(),
        transition_bezier: "0.5,0.5,0.5,0.5".to_string(),
        transition_duration: Span::from_millis(1000),
        ..OutputConfig::default()
    };

    output.merge_from_global(&global);

    // Should keep output-specific values
    assert_eq!(output.duration, Span::from_secs(600));
    assert_eq!(output.queue_size, 5);
    assert_eq!(output.sorting, Sorting::Ascending);
    assert_eq!(output.transition_type, "fade");
    assert_eq!(output.transition_step, 45);
    assert_eq!(output.transition_angle.text.parse::<f32>().unwrap(), 45.0);
    assert_eq!(output.transition_pos, "top-left");
    assert_eq!(output.transition_bezier, "0.5,0.5,0.5,0.5");
    assert_eq!(output.transition_duration, Span::from_millis(1000));
}

#[test]
fn test_output_config_merge_defaults() {
    let global = GlobalConfig {
        duration: Span::from_secs(300),
        queue_size: 10,
        sorting: Sorting::Random,
        transition_type: "wipe".to_string(),
        transition_step: 90,
        transition_angle: angle(90.0),
        transition_pos: "center".to_string(),
        transition_bezier: "0.25,0.1,0.25,1".to_string(),
        transition_duration: Span::from_millis(500),
        ..GlobalConfig::default()
    };

    let mut output = OutputConfig::default();
    output.merge_from_global(&global);

    // Should inherit global values
    assert_eq!(output.duration, Span::from_secs(300));
    assert_eq!(output.queue_size, 10);
    assert_eq!(output.sorting, Sorting::Random);
    assert_eq!(output.transition_type, "wipe");
    assert_eq!(output.transition_step, 90);
    assert_eq!(output.transition_angle.text.parse::<f32>().unwrap(), 90.0);
    assert_eq!(output.transition_pos, "center");
    assert_eq!(output.transition_bezier, "0.25,0.1,0.25,1");
    assert_eq!(output.transition_duration, Span::from_millis(500));
}

#[test]
fn built_in_values() {
    assert_eq!(default_duration(), Span { nanos: 300_000_000_000 });
    assert_eq!(default_queue_size(), 10);
    assert_eq!(default_sorting(), Sorting::Random);
    assert_eq!(default_transition_type(), "wipe");
    assert_eq!(default_transition_step(), 90);
    assert_eq!(default_transition_angle().text, "90");
    assert!(default_transition_angle().in_range);
    assert_eq!(default_transition_angle().text, 90.0f32.to_string());
    assert_eq!(default_transition_pos(), "center");
    assert_eq!(default_transition_bezier(), "0.25,0.1,0.25,1");
    assert_eq!(default_transition_duration(), Span { nanos: 500_000_000 });
    assert_eq!(default_resize(), "crop");
    assert_eq!(default_fill_color(), "000000");
    assert_eq!(default_filter(), "Lanczos3");
    assert!(!default_invert_y());
    assert_eq!(default_transition_wave(), "20,20");
    assert!(matches!(default_monitor_behavior(), MonitorBehavior::Independent));
    assert!(matches!(MonitorBehavior::default(), MonitorBehavior::Independent));
    let config = Config::default();
    assert!(config.any.path.is_none());
    assert!(config.monitor_groups.is_none());
    assert!(config.outputs.is_empty());
}

#[test]
fn global_fills_what_is_built_in() {
    let global = GlobalConfig {
        duration: Span::from_secs(60),
        queue_size: 3,
        sorting: Sorting::Descending,
        transition_type: "grow".to_string(),
        transition_step: 2,
        transition_angle: angle(30.0),
        transition_pos: "top".to_string(),
        transition_bezier: "0,0,1,1".to_string(),
        transition_duration: Span::from_millis(20),
        resize: "fit".to_string(),
        fill_color: "ffffff".to_string(),
        filter: "Nearest".to_string(),
        invert_y: true,
        transition_wave: "5,5".to_string(),
    };
    let mut output = OutputConfig { path: Some("/p".to_string()), ..OutputConfig::default() };
    output.merge_from_global(&global);
    assert_eq!(output.path, Some("/p".to_string()));
    assert_eq!(output.duration, Span::from_secs(60));
    assert_eq!(output.queue_size, 3);
    assert_eq!(output.sorting, Sorting::Descending);
    assert_eq!(output.transition_type, "grow");
    assert_eq!(output.transition_step, 2);
    assert_eq!(output.transition_angle.text, "30");
    assert_eq!(output.transition_pos, "top");
    assert_eq!(output.transition_bezier, "0,0,1,1");
    assert_eq!(output.transition_duration, Span::from_millis(20));
    assert_eq!(output.resize, "fit");
    assert_eq!(output.fill_color, "ffffff");
    assert_eq!(output.filter, "Nearest");
    assert!(output.invert_y);
    assert_eq!(output.transition_wave, "5,5");
}

#[test]
fn merge_takes_the_path_only_if_there_is_none() {
    let other = OutputConfig {
        path: Some("/other".to_string()),
        queue_size: 7,
        ..OutputConfig::default()
    };
    let mut without = OutputConfig::default();
    without.merge(&other);
    assert_eq!(without.path, Some("/other".to_string()));
    assert_eq!(without.queue_size, 7);
    let mut with = OutputConfig {
        path: Some("/mine".to_string()),
        queue_size: 2,
        ..OutputConfig::default()
    };
    with.merge(&other);
    assert_eq!(with.path, Some("/mine".to_string()));
    assert_eq!(with.queue_size, 2);
}

#[test]
fn output_section_overrides_everything() {
    let mut base = OutputConfig {
        path: Some("/base".to_string()),
        queue_size: 2,
        transition_type: "fade".to_string(),
        ..OutputConfig::default()
    };
    let own = OutputConfig { path: None, ..OutputConfig::default() };
    base.merge_from_output(&own);
    assert_eq!(base.path, Some("/base".to_string()));
    assert_eq!(base.queue_size, 10);
    assert_eq!(base.transition_type, "wipe");
    let own = OutputConfig { path: Some("/own".to_string()), ..OutputConfig::default() };
    base.merge_from_output(&own);
    assert_eq!(base.path, Some("/own".to_string()));
}

#[test]
fn settings_of_an_output_in_three_levels() {
    let mut config = Config::default();
    config.global.duration = Span::from_secs(180);
    config.global.queue_size = 5;
    config.any.path = Some("/any".to_string());
    config.any.transition_type = "grow".to_string();
    config.outputs.push(NamedOutputConfig {
        name: "HDMI-A-1".to_string(),
        config: OutputConfig {
            path: Some("/test/path".to_string()),
            duration: Span::from_secs(300),
            transition_type: "fade".to_string(),
            ..OutputConfig::default()
        },
    });
    config.outputs.push(NamedOutputConfig {
        name: "DP-1".to_string(),
        config: OutputConfig { queue_size: 2, ..OutputConfig::default() },
    });
    config.outputs.push(NamedOutputConfig {
        name: "DP-1".to_string(),
        config: OutputConfig { queue_size: 99, ..OutputConfig::default() },
    });

    let unknown = config.get_output_config("DP-9");
    assert_eq!(unknown.path, Some("/any".to_string()));
    assert_eq!(unknown.duration, Span::from_secs(180));
    assert_eq!(unknown.queue_size, 5);
    assert_eq!(unknown.transition_type, "grow");

    let hdmi = config.get_output_config("HDMI-A-1");
    assert_eq!(hdmi.path, Some("/test/path".to_string()));
    assert_eq!(hdmi.duration, Span::from_secs(300));
    assert_eq!(hdmi.queue_size, 10);
    assert_eq!(hdmi.transition_type, "fade");

    let dp = config.get_output_config("DP-1");
    assert_eq!(dp.path, Some("/any".to_string()));
    assert_eq!(dp.queue_size, 2);
}

#[test]
fn behavior_in_effect() {
    let mut config = Config::default();
    assert!(matches!(config.get_effective_monitor_behavior(), MonitorBehavior::Independent));
    config.monitor_behavior = MonitorBehavior::Synchronized;
    assert!(matches!(config.get_effective_monitor_behavior(), MonitorBehavior::Synchronized));
    config.monitor_groups = Some(groups(&[&["a", "b"], &["c"]]));
    assert!(matches!(config.get_effective_monitor_behavior(), MonitorBehavior::Synchronized));
    config.monitor_behavior = MonitorBehavior::Grouped(groups(&[&["x"]]));
    match config.get_effective_monitor_behavior() {
        MonitorBehavior::Grouped(g) => assert_eq!(g, groups(&[&["a", "b"], &["c"]])),
        other => panic!("unexpected: {:?}", other),
    }
    config.monitor_groups = None;
    assert!(matches!(config.get_effective_monitor_behavior(), MonitorBehavior::Independent));
}

#[test]
fn each_invalid_setting() {
    let mut g = GlobalConfig::default();
    assert!(g.validate().is_ok());
    g.duration = Span { nanos: 999_999_999 };
    g.queue_size = 0;
    assert_eq!(invalid_value(g.validate()), ("duration".to_string(), "999.999999ms".to_string()));
    g.duration = Span::from_secs(1);
    g.transition_step = 0;
    assert_eq!(invalid_value(g.validate()), ("queue_size".to_string(), "0".to_string()));
    g.queue_size = 1;
    g.transition_angle = angle(361.0);
    assert_eq!(invalid_value(g.validate()), ("transition_step".to_string(), "0".to_string()));
    g.transition_step = 1;
    g.transition_duration = Span { nanos: 999_999 };
    assert_eq!(invalid_value(g.validate()), ("transition_angle".to_string(), "361".to_string()));
    g.transition_angle = angle(360.0);
    assert_eq!(
        invalid_value(g.validate()),
        ("transition_duration".to_string(), "999.999\u{b5}s".to_string())
    );
    g.transition_duration = Span::from_millis(1);
    assert!(g.validate().is_ok());

    let mut o = OutputConfig::default();
    assert!(o.validate().is_ok());
    o.duration = Span { nanos: 0 };
    assert_eq!(invalid_value(o.validate()), ("duration".to_string(), "0ns".to_string()));
}

#[test]
fn faults_are_reported_in_order() {
    let mut config = Config::default();
    config.any.queue_size = 0;
    config.outputs.push(NamedOutputConfig {
        name: "DP-1".to_string(),
        config: OutputConfig { transition_step: 0, ..OutputConfig::default() },
    });
    config.outputs.push(NamedOutputConfig {
        name: "DP-2".to_string(),
        config: OutputConfig { queue_size: 0, ..OutputConfig::default() },
    });
    config.monitor_groups = Some(Vec::new());
    assert_eq!(invalid_value(config.validate()).0, "queue_size");
    config.any.queue_size = 1;
    assert_eq!(
        validation_message(config.validate()),
        "Output 'DP-1': Configuration error: Invalid configuration value for transition_step: 0"
    );
    config.outputs.remove(0);
    assert_eq!(
        validation_message(config.validate()),
        "Output 'DP-2': Configuration error: Invalid configuration value for queue_size: 0"
    );
    config.outputs.clear();
    assert_eq!(validation_message(config.validate()), "monitor_groups cannot be empty");
    assert_eq!(
        validation_message(config.validate_monitor_behavior()),
        "monitor_groups cannot be empty"
    );
    config.monitor_groups = None;
    assert!(config.validate().is_ok());
}

#[test]
fn test_monitor_groups_validation() {
    let mut config = Config::default();
    config.monitor_behavior = MonitorBehavior::Independent;
    config.monitor_groups = Some(groups(&[&["HDMI-A-1", "DP-2"], &["DP-3"]]));
    config.any.path = Some("/test/path".to_string());
    config.validate().expect("Config should validate");

    assert!(matches!(config.monitor_behavior, MonitorBehavior::Independent));
    assert!(config.monitor_groups.is_some());
    let groups = config.monitor_groups.as_ref().unwrap();
    assert_eq!(groups.len(), 2);
    assert_eq!(groups[0], vec!["HDMI-A-1", "DP-2"]);
    assert_eq!(groups[1], vec!["DP-3"]);
}

#[test]
fn each_fault_of_the_groups() {
    assert!(validate_groups(&groups(&[&["a", "b"], &["c"]])).is_ok());
    assert_eq!(
        validation_message(validate_groups(&Vec::new())),
        "monitor_groups cannot be empty"
    );
    assert_eq!(
        validation_message(validate_groups(&groups(&[&["a"], &[], &["a"], &[]]))),
        "Group 1 is empty"
    );
    assert_eq!(
        validation_message(validate_groups(&groups(&[&["a", "b"], &["c", "b", "a"]]))),
        "Output 'b' appears in multiple groups"
    );
    assert_eq!(
        validation_message(validate_groups(&groups(&[&["a", "a"]]))),
        "Output 'a' appears in multiple groups"
    );
    assert_eq!(
        flatten_groups(&groups(&[&["a", "b"], &[], &["c"]])),
        vec!["a".to_string(), "b".to_string(), "c".to_string()]
    );
}

#[test]
fn durations_as_humans_write_them() {
    assert_eq!(parse_duration("3m").unwrap(), Span::from_secs(180));
    assert_eq!(parse_duration("500ms").unwrap(), Span::from_millis(500));
    assert_eq!(parse_duration("1h 30m").unwrap(), Span::from_secs(5400));
    assert_eq!(parse_duration("1s 5ns").unwrap(), Span { nanos: 1_000_000_005 });
    assert_eq!(parse_duration("0").unwrap(), Span { nanos: 0 });
    match parse_duration("invalid") {
        Err(ValidationError::InvalidDuration { duration }) => assert_eq!(duration, "invalid"),
        other => panic!("unexpected: {:?}", other),
    }
    assert!(parse_duration("").is_err());
    assert!(parse_duration("3").is_err());
    // eleven digits are read, twelve are not
    assert_eq!(parse_duration("12345678901s").unwrap(), Span::from_secs(12_345_678_901));
    assert_eq!(parse_duration("99999y 99999w 9d").unwrap().as_secs(), 3_216_208_615_200);
    assert!(parse_duration("123456789012s").is_err());
    assert!(parse_duration("18446744073709551615s 1000000000ns").is_err());
    assert_eq!(count_digits("1h 30m 15s"), 5);
    assert_eq!(count_digits(""), 0);
    assert_eq!(count_digits("\u{663}x9"), 1);
}

#[test]
fn spans() {
    assert_eq!(Span::from_parts(2, 5), Span { nanos: 2_000_000_005 });
    assert_eq!(Span::from_secs(u64::MAX).as_secs(), u64::MAX);
    assert_eq!(Span { nanos: u128::MAX }.as_secs(), u64::MAX);
    assert_eq!(Span { nanos: 1_999_999_999 }.as_secs(), 1);
    assert_eq!(Span { nanos: 1_999_999_999 }.subsec_nanos(), 999_999_999);
    assert_eq!(Span::from_secs(5).saturating_sub(Span::from_secs(2)), Span::from_secs(3));
    assert_eq!(Span::from_secs(2).saturating_sub(Span::from_secs(5)), Span { nanos: 0 });
}

#[test]
fn behavior_named_in_the_text() {
    assert!(behavior_override("").is_none());
    assert!(behavior_override("[any]\npath = \"/x\"\n").is_none());
    assert!(matches!(
        behavior_override("a = 1\nmonitor_behavior = \"Synchronized\"\n"),
        Some(MonitorBehavior::Synchronized)
    ));
    assert!(matches!(
        behavior_override("monitor_behavior = \"Independent\""),
        Some(MonitorBehavior::Independent)
    ));
    match behavior_override("  monitor_behavior=\"Grouped\" # \"x\"\r\n") {
        Some(MonitorBehavior::Grouped(g)) => assert!(g.is_empty()),
        other => panic!("unexpected: {:?}", other),
    }
    // the first line that holds the key counts, and in it the first known name
    assert!(behavior_override("# monitor_behavior\nmonitor_behavior = \"Synchronized\"").is_none());
    assert!(matches!(
        behavior_override("monitor_behavior = \"Independent\" # not \"Synchronized\""),
        Some(MonitorBehavior::Synchronized)
    ));
    assert!(behavior_override("monitor_behavior = Synchronized").is_none());
    assert!(behavior_override("monitor_behavior = \"synchronized\"").is_none());
}

#[test]
fn loading_takes_the_named_behavior_and_validates() {
    let config = Config::default();
    let loaded = Config::loaded(config, "monitor_behavior = \"Synchronized\"\n").unwrap();
    assert!(matches!(loaded.monitor_behavior, MonitorBehavior::Synchronized));
    let mut config = Config::default();
    config.monitor_behavior = MonitorBehavior::Synchronized;
    let loaded = Config::loaded(config, "[global]\n").unwrap();
    assert!(matches!(loaded.monitor_behavior, MonitorBehavior::Synchronized));
    let mut config = Config::default();
    config.global.queue_size = 0;
    assert!(Config::loaded(config, "").is_err());
}

fn read_with_path(content: &str) -> Config {
    let mut config = Config::default();
    config.any.path = Some("/test/path".to_string());
    Config::loaded(config, content).expect("Config should parse")
}

#[test]
fn test_duration_deserialization() {
    assert_eq!(parse_duration("3m").unwrap(), Span::from_secs(180));
    assert_eq!(parse_duration("500ms").unwrap(), Span::from_millis(500));
}

#[test]
fn test_default_monitor_behavior() {
    let config_content = r#"
            [any]
            path = "/test/path"
        "#;

    let config = read_with_path(config_content);
    assert!(matches!(config.monitor_behavior, MonitorBehavior::Independent));
    assert!(matches!(config.get_effective_monitor_behavior(), MonitorBehavior::Independent));
}

#[test]
fn test_explicit_independent_monitor_behavior() {
    let config_content = r#"
            monitor_behavior = "Independent"
            
            [any]
            path = "/test/path"
        "#;

    let config = read_with_path(config_content);
    assert!(matches!(config.monitor_behavior, MonitorBehavior::Independent));
    assert!(matches!(config.get_effective_monitor_behavior(), MonitorBehavior::Independent));
}

#[test]
fn test_synchronized_monitor_behavior() {
    let config_content = r#"
            monitor_behavior = "Synchronized"
            
            [any]
            path = "/test/path"
        "#;

    let config = read_with_path(config_content);
    assert!(matches!(config.monitor_behavior, MonitorBehavior::Synchronized));
    assert!(matches!(config.get_effective_monitor_behavior(), MonitorBehavior::Synchronized));
}

#[test]
fn directories_that_a_configuration_names() {
    let mut config = Config::default();
    assert!(config.image_paths().is_empty());
    for (name, path) in
        [("a", Some("/x")), ("b", None), ("c", Some("/y")), ("d", Some("/x")), ("e", Some("/z"))]
    {
        config.outputs.push(NamedOutputConfig {
            name: name.to_string(),
            config: OutputConfig { path: path.map(|p| p.to_string()), ..OutputConfig::default() },
        });
    }
    assert_eq!(config.image_paths(), vec!["/x".to_string(), "/y".to_string(), "/z".to_string()]);
    config.any.path = Some("/y".to_string());
    assert_eq!(config.image_paths(), vec!["/y".to_string(), "/x".to_string(), "/z".to_string()]);
    for name in ["a", "b", "c", "d", "e", "none"] {
        let path = config.get_output_config(name).path.unwrap();
        assert!(config.image_paths().contains(&path));
    }
}
