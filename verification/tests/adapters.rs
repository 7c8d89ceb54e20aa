//! Adapter tests: device, container, repository and build-target parsing
//! on concrete tool output.

use context_keeper::collectors::adb::collect_adb_devices;
use context_keeper::collectors::build_targets::{
    collect_build_targets, extract_entry_commands, parse_build_file, parse_var_assignment,
};
use context_keeper::collectors::container::{collect_containers, container_runtime};
use context_keeper::collectors::git::{
    assemble_git_repos, build_git_info, classify_status_lines, git_scan_plan,
    is_skipped_dir_name, truncate_commit_summary, GitScanPlan,
};
use context_keeper::config::{Config, ContainersConfig, GitConfig, ScriptsConfig};
use context_keeper::raw::{RawBuildFile, RawRepo};

fn lines(v: &[&str]) -> Vec<String> {
    v.iter().map(|s| s.to_string()).collect()
}

#[test]
fn adb_devices_skip_header_and_offline() {
    let adb = lines(&[
        "List of devices attached",
        "emulator-5554\tdevice product:sdk",
        "0123456789\toffline",
        "",
    ]);
    let fastboot = lines(&["98765\tfastboot", ""]);
    let devices = collect_adb_devices(&Some(adb), &Some(fastboot));
    assert_eq!(devices.len(), 2);
    assert_eq!(devices[0].serial, "emulator-5554");
    assert_eq!(devices[0].state, "device");
    assert_eq!(devices[0].device_type, "adb");
    assert_eq!(devices[1].serial, "98765");
    assert_eq!(devices[1].state, "fastboot");
    assert_eq!(devices[1].device_type, "fastboot");
}

#[test]
fn adb_devices_empty_when_tools_failed() {
    let devices = collect_adb_devices(&None, &None);
    assert!(devices.is_empty());
}

#[test]
fn containers_split_on_tab_with_default_runtime() {
    let config = Config::default();
    assert_eq!(container_runtime(&config), "podman");
    let output = lines(&["dev-box\tUp 2 hours", "no-tab-line", "a\tb\tc"]);
    let containers = collect_containers(&config, &Some(output));
    assert_eq!(containers.len(), 2);
    assert_eq!(containers[0].name, "dev-box");
    assert_eq!(containers[0].status, "Up 2 hours");
    assert_eq!(containers[0].runtime, "podman");
    assert_eq!(containers[1].name, "a");
    assert_eq!(containers[1].status, "b");
}

#[test]
fn container_runtime_from_config() {
    let mut config = Config::default();
    config.containers = Some(ContainersConfig { runtime: Some("docker".to_string()) });
    assert_eq!(container_runtime(&config), "docker");
}

#[test]
fn status_lines_classify_modified_and_untracked() {
    let status = lines(&[" M src/main.c", "M  staged.c", "MM both.c", "?? new.c", "A  added.c", "   "]);
    let counts = classify_status_lines(&status);
    assert_eq!(counts.0, 4);
    assert_eq!(counts.1, 1);
}

#[test]
fn commit_summary_truncated_past_fifty() {
    let long = "abc1234 this commit message is quite long and will exceed fifty";
    assert_eq!(long.len(), 63);
    let stored = truncate_commit_summary(long);
    assert_eq!(stored.chars().count(), 50);
    assert_eq!(stored, format!("{}...", &long[..47]));

    let short = "abc1234 short message";
    assert_eq!(truncate_commit_summary(short), short);
}

#[test]
fn git_info_branch_falls_back_to_describe() {
    let raw = RawRepo {
        path: "sub".to_string(),
        branch_output: Some("\n".to_string()),
        describe_output: Some("v1.0-3-gabc\n".to_string()),
        status_lines: Some(lines(&["?? x", "?? y"])),
        commit_output: Some("abc fix\n".to_string()),
    };
    let info = build_git_info(&raw);
    assert_eq!(info.repo_path, "sub");
    assert_eq!(info.branch, "(v1.0-3-gabc)");
    assert!(info.is_dirty);
    assert_eq!(info.modified_files, 0);
    assert_eq!(info.untracked_files, 2);
    assert_eq!(info.last_commit_short, "abc fix");
}

#[test]
fn git_root_repo_short_circuits_candidates() {
    let root = RawRepo {
        path: "whatever".to_string(),
        branch_output: Some("main".to_string()),
        describe_output: None,
        status_lines: Some(Vec::new()),
        commit_output: None,
    };
    let other = RawRepo {
        path: "sub".to_string(),
        branch_output: Some("dev".to_string()),
        describe_output: None,
        status_lines: None,
        commit_output: None,
    };
    let repos = assemble_git_repos(&Some(root), &vec![other]);
    assert_eq!(repos.len(), 1);
    assert_eq!(repos[0].repo_path, ".");
    assert_eq!(repos[0].branch, "main");
    assert!(!repos[0].is_dirty);
}

#[test]
fn git_candidates_sorted_and_capped() {
    let mut candidates = Vec::new();
    for name in ["m", "c", "z", "a", "q", "b", "x", "d", "e", "f", "g"] {
        candidates.push(RawRepo {
            path: name.to_string(),
            branch_output: Some("main".to_string()),
            describe_output: None,
            status_lines: Some(Vec::new()),
            commit_output: None,
        });
    }
    let repos = assemble_git_repos(&None, &candidates);
    assert_eq!(repos.len(), 10);
    let paths: Vec<&str> = repos.iter().map(|r| r.repo_path.as_str()).collect();
    assert_eq!(paths, vec!["a", "b", "c", "d", "e", "f", "g", "m", "q", "x"]);
}

#[test]
fn scan_plan_defaults_and_overrides() {
    let config = Config::default();
    assert!(matches!(git_scan_plan(&config), GitScanPlan::Scan(2)));

    let mut config = Config::default();
    config.git = Some(GitConfig {
        paths: Some(vec!["a".to_string(), "b".to_string()]),
        auto_detect: None,
        scan_depth: None,
    });
    match git_scan_plan(&config) {
        GitScanPlan::Explicit(paths) => assert_eq!(paths, vec!["a", "b"]),
        _ => panic!("expected explicit paths"),
    }

    config.git = Some(GitConfig { paths: None, auto_detect: Some(false), scan_depth: None });
    assert!(matches!(git_scan_plan(&config), GitScanPlan::Skip));

    config.git = Some(GitConfig { paths: None, auto_detect: None, scan_depth: Some(4) });
    assert!(matches!(git_scan_plan(&config), GitScanPlan::Scan(4)));
}

#[test]
fn skipped_directory_names() {
    assert!(is_skipped_dir_name(".git"));
    assert!(is_skipped_dir_name("node_modules"));
    assert!(is_skipped_dir_name("target"));
    assert!(is_skipped_dir_name("out"));
    assert!(!is_skipped_dir_name("src"));
    assert!(!is_skipped_dir_name("output"));
}

#[test]
fn var_assignment_trims_and_strips_quotes() {
    let kv = parse_var_assignment("TARGET_NAME = \"pixel\"").unwrap();
    assert_eq!(kv.0, "TARGET_NAME");
    assert_eq!(kv.1, "pixel");
    let kv = parse_var_assignment("KEY='quoted'").unwrap();
    assert_eq!(kv.1, "quoted");
    let kv = parse_var_assignment("KEY=a=b").unwrap();
    assert_eq!(kv.1, "a=b");
    assert!(parse_var_assignment("no assignment here").is_none());
}

#[test]
fn build_file_parsed_with_fallback_name() {
    let file = RawBuildFile {
        stem: "pixel8".to_string(),
        lines: lines(&[
            "# a comment",
            "",
            "TARGET_DESCRIPTION=\"Main phone target\"",
            "CONTAINER_NAME=aosp-box",
            "LUNCH_TARGET=aosp_husky-userdebug",
            "CAN_EMULATOR=false",
            "CAN_FLASH=true",
        ]),
    };
    let target = parse_build_file(&file);
    assert_eq!(target.name, "pixel8");
    assert_eq!(target.description, "Main phone target");
    assert_eq!(target.container_name, "aosp-box");
    assert_eq!(target.lunch_target, "aosp_husky-userdebug");
    assert!(!target.can_emulator);
    assert!(target.can_flash);

    let named = RawBuildFile {
        stem: "fallback".to_string(),
        lines: lines(&["TARGET_NAME=explicit"]),
    };
    assert_eq!(parse_build_file(&named).name, "explicit");
}

#[test]
fn build_targets_need_config_dir() {
    let files = vec![RawBuildFile { stem: "one".to_string(), lines: lines(&["TARGET_NAME=x"]) }];
    let config = Config::default();
    assert!(collect_build_targets(&config, &files).is_empty());

    let mut config = Config::default();
    config.scripts = Some(ScriptsConfig {
        entry_point: None,
        config_dir: Some("configs".to_string()),
        config_pattern: None,
        extract_vars: None,
    });
    let targets = collect_build_targets(&config, &files);
    assert_eq!(targets.len(), 1);
    assert_eq!(targets[0].name, "x");
}

#[test]
fn entry_commands_sorted_deduped_capped() {
    let script = lines(&[
        "  ./build.sh all  ",
        "echo nothing",
        "./run.sh demo",
        "./build.sh all",
        "./a.sh x",
    ]);
    let commands = extract_entry_commands(&Some(script));
    assert_eq!(commands, vec!["./a.sh x", "./build.sh all", "./run.sh demo"]);

    assert!(extract_entry_commands(&None).is_empty());
}
