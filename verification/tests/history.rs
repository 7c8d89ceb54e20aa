//! History tests: log-line decoding, pattern filtering and the retention
//! cap, run against the real regular-expression engine.

use context_keeper::collectors::history::{
    collect_command_history, get_default_history_patterns,
};
use context_keeper::config::{Config, HistoryConfig};

fn history_config(patterns: Option<Vec<&str>>, max_entries: Option<usize>) -> Config {
    let mut config = Config::default();
    config.history = Some(HistoryConfig {
        enabled: None,
        log_file: None,
        patterns: patterns.map(|ps| ps.iter().map(|p| p.to_string()).collect()),
        max_entries,
    });
    config
}

fn log_line(timestamp: &str, command: &str) -> String {
    format!("{{\"timestamp\": \"{}\", \"command\": \"{}\"}}", timestamp, command)
}

#[test]
fn keeps_only_matching_commands() {
    let config = history_config(Some(vec!["^make\\b"]), None);
    let lines = vec![
        log_line("t1", "make all"),
        log_line("t2", "ls -la"),
        log_line("t3", "make clean"),
    ];
    let entries = collect_command_history(&config, &Some(lines));
    assert_eq!(entries.len(), 2);
    assert_eq!(entries[0].command, "make all");
    assert_eq!(entries[0].timestamp, "t1");
    assert_eq!(entries[1].command, "make clean");
}

#[test]
fn keeps_everything_with_empty_pattern_list() {
    let config = history_config(Some(vec![]), None);
    let lines = vec![log_line("t1", "anything"), log_line("t2", "at all")];
    let entries = collect_command_history(&config, &Some(lines));
    assert_eq!(entries.len(), 2);
}

#[test]
fn invalid_patterns_are_dropped() {
    // The only pattern fails to compile, so no valid pattern remains and
    // everything is kept.
    let config = history_config(Some(vec!["(unclosed"]), None);
    let lines = vec![log_line("t1", "whatever")];
    let entries = collect_command_history(&config, &Some(lines));
    assert_eq!(entries.len(), 1);
}

#[test]
fn malformed_and_empty_lines_are_skipped() {
    let config = history_config(Some(vec![]), None);
    let lines = vec![
        "not json".to_string(),
        "{\"timestamp\": \"t1\"}".to_string(),
        log_line("t2", "kept"),
    ];
    let entries = collect_command_history(&config, &Some(lines));
    assert_eq!(entries.len(), 1);
    assert_eq!(entries[0].command, "kept");
    assert_eq!(entries[0].timestamp, "t2");
}

#[test]
fn retention_cap_keeps_most_recent_in_order() {
    let config = history_config(Some(vec![]), Some(3));
    let lines: Vec<String> = (0..7).map(|i| log_line("t", &format!("cmd{}", i))).collect();
    let entries = collect_command_history(&config, &Some(lines));
    assert_eq!(entries.len(), 3);
    let commands: Vec<&str> = entries.iter().map(|e| e.command.as_str()).collect();
    assert_eq!(commands, vec!["cmd4", "cmd5", "cmd6"]);
}

#[test]
fn default_patterns_match_build_commands() {
    let config = history_config(None, None);
    let lines = vec![
        log_line("t1", "lunch aosp_husky-userdebug"),
        log_line("t2", "cat README"),
        log_line("t3", "export TARGET_PRODUCT=husky"),
    ];
    let entries = collect_command_history(&config, &Some(lines));
    let commands: Vec<&str> = entries.iter().map(|e| e.command.as_str()).collect();
    assert_eq!(commands, vec!["lunch aosp_husky-userdebug", "export TARGET_PRODUCT=husky"]);
}

#[test]
fn no_history_section_means_no_entries() {
    let config = Config::default();
    let lines = vec![log_line("t1", "anything")];
    assert!(collect_command_history(&config, &Some(lines)).is_empty());
}

#[test]
fn disabled_history_means_no_entries() {
    let mut config = history_config(Some(vec![]), None);
    if let Some(hc) = &mut config.history {
        hc.enabled = Some(false);
    }
    let lines = vec![log_line("t1", "anything")];
    assert!(collect_command_history(&config, &Some(lines)).is_empty());
}

#[test]
fn wizard_patterns_follow_project_type() {
    assert_eq!(get_default_history_patterns("aosp").len(), 6);
    assert!(get_default_history_patterns("ros").contains(&"colcon\\s+build"));
    assert_eq!(get_default_history_patterns("yocto").len(), 4);
    assert_eq!(
        get_default_history_patterns("custom"),
        vec!["export\\s+\\w+=", "source\\s+"]
    );
}
