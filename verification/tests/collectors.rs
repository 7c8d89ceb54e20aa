//! Registry tests: the fixed collector set, its order and its enablement
//! rules.

use context_keeper::collectors::{Collector, collect_context, default_collectors};
use context_keeper::collectors::{AdbCollector, HistoryCollector};
use context_keeper::config::{AdbConfig, Config, HistoryConfig, ProjectConfig};
use context_keeper::raw::RawInputs;

#[test]
fn test_default_collectors() {
    let collectors = default_collectors();
    assert_eq!(collectors.len(), 6);

    let names: Vec<&str> = collectors.iter().map(|c| c.name()).collect();
    assert!(names.contains(&"build"));
    assert!(names.contains(&"container"));
    assert!(names.contains(&"git"));
    assert!(names.contains(&"history"));
    assert!(names.contains(&"adb"));
    assert!(names.contains(&"workstate"));
}

#[test]
fn test_collect_context_empty_config() {
    let config = Config::default();
    let ctx = collect_context(&config, &RawInputs::new_empty());

    // Should not panic with empty config
    assert!(ctx.project_name.is_empty());
}

#[test]
fn collect_context_seeds_project_and_hints() {
    let mut config = Config::default();
    config.project = Some(ProjectConfig {
        name: Some("demo".to_string()),
        project_type: Some("aosp".to_string()),
    });
    let ctx = collect_context(&config, &RawInputs::new_empty());
    assert_eq!(ctx.project_name, "demo");
    assert_eq!(ctx.project_type, "aosp");
    assert!(ctx.work_state.is_none());
}

#[test]
fn adb_collector_auto_enables_for_aosp_only() {
    let adb = AdbCollector;
    let mut config = Config::default();
    assert!(!adb.is_enabled(&config));

    config.project = Some(ProjectConfig {
        name: None,
        project_type: Some("aosp".to_string()),
    });
    assert!(adb.is_enabled(&config));

    config.project = Some(ProjectConfig {
        name: None,
        project_type: Some("ros".to_string()),
    });
    assert!(!adb.is_enabled(&config));

    // An explicit setting wins over the auto rule.
    config.adb = Some(AdbConfig { enabled: Some(true) });
    assert!(adb.is_enabled(&config));
    config.project = Some(ProjectConfig {
        name: None,
        project_type: Some("aosp".to_string()),
    });
    config.adb = Some(AdbConfig { enabled: Some(false) });
    assert!(!adb.is_enabled(&config));
}

#[test]
fn history_collector_enabled_unless_switched_off() {
    let history = HistoryCollector;
    let mut config = Config::default();
    assert!(history.is_enabled(&config));

    config.history = Some(HistoryConfig {
        enabled: Some(false),
        log_file: None,
        patterns: None,
        max_entries: None,
    });
    assert!(!history.is_enabled(&config));

    config.history = Some(HistoryConfig {
        enabled: None,
        log_file: None,
        patterns: None,
        max_entries: None,
    });
    assert!(history.is_enabled(&config));
}

#[test]
fn pipeline_carries_raw_inputs_into_the_rendering() {
    let mut config = Config::default();
    config.project = Some(ProjectConfig {
        name: Some("demo".to_string()),
        project_type: Some("aosp".to_string()),
    });

    let mut raw = RawInputs::new_empty();
    raw.container_lines = Some(vec!["dev-box\tUp 2 hours".to_string()]);
    raw.adb_lines = Some(vec![
        "List of devices attached".to_string(),
        "serial-1\tdevice".to_string(),
    ]);
    raw.todos_doc =
        Some("{\"todos\": [{\"content\": \"step\", \"status\": \"pending\"}]}".to_string());

    let ctx = collect_context(&config, &raw);
    assert_eq!(ctx.containers.len(), 1);
    assert_eq!(ctx.adb_devices.len(), 1);
    let ws = ctx.work_state.clone().expect("hook todos imply a state");
    assert_eq!(ws.todos.len(), 1);

    let rendered = context_keeper::formatters::format_normal(&ctx);
    assert!(rendered.contains("- dev-box (Up 2 hours)"));
    assert!(rendered.contains("- serial-1 (device, adb)"));
    assert!(rendered.contains("- [ ] step"));
}

#[test]
fn adb_collector_skipped_without_aosp_type() {
    let config = Config::default();
    let mut raw = RawInputs::new_empty();
    raw.adb_lines = Some(vec![
        "List of devices attached".to_string(),
        "serial-1\tdevice".to_string(),
    ]);
    let ctx = collect_context(&config, &raw);
    assert!(ctx.adb_devices.is_empty());
}
