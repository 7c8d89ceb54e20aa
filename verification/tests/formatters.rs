//! Renderer tests: status strings, truncation, escaping, level fallback
//! and section selection on concrete snapshots.

use context_keeper::context::{
    AdbDevice, Context, GitInfo, HistoryEntry, TodoItem, WorkState,
};
use context_keeper::formatters::{
    format_context_markdown, format_full, format_git_status, format_minimal, format_normal,
    format_work_state,
};

fn repo(path: &str, modified: usize, untracked: usize) -> GitInfo {
    GitInfo {
        repo_path: path.to_string(),
        branch: "main".to_string(),
        is_dirty: modified + untracked > 0,
        modified_files: modified,
        untracked_files: untracked,
        last_commit_short: "abc fix".to_string(),
    }
}

#[test]
fn git_status_renders_counts() {
    assert_eq!(format_git_status(&repo("x", 3, 0)), "3M");
    assert_eq!(format_git_status(&repo("x", 0, 2)), "2U");
    assert_eq!(format_git_status(&repo("x", 3, 2)), "3M 2U");
    assert_eq!(format_git_status(&repo("x", 0, 0)), "clean");
    assert_eq!(format_git_status(&repo("x", 12, 0)), "12M");
}

#[test]
fn unrecognized_level_renders_as_normal() {
    let mut ctx = Context::new_empty();
    ctx.hints = "stay in the container".to_string();
    ctx.git_repos = vec![repo(".", 1, 0)];
    let verbose = format_context_markdown(&ctx, "verbose");
    let normal = format_context_markdown(&ctx, "normal");
    assert_eq!(verbose, normal);
    assert_eq!(normal, format_normal(&ctx));
    assert_eq!(format_context_markdown(&ctx, "minimal"), format_minimal(&ctx));
    assert_eq!(format_context_markdown(&ctx, "full"), format_full(&ctx));
}

#[test]
fn long_command_truncated_to_seventy_seven_plus_ellipsis() {
    let long_command = "x".repeat(100);
    let mut ctx = Context::new_empty();
    ctx.command_history = vec![HistoryEntry {
        timestamp: "t1".to_string(),
        command: long_command.clone(),
    }];
    let output = format_full(&ctx);
    let expected_cell = format!("`{}...`", "x".repeat(77));
    assert!(output.contains(&expected_cell));
    assert!(!output.contains(&long_command));

    let short_command = "x".repeat(80);
    ctx.command_history = vec![HistoryEntry { timestamp: "t1".to_string(), command: short_command.clone() }];
    let output = format_full(&ctx);
    assert!(output.contains(&format!("`{}`", short_command)));
}

#[test]
fn table_cells_escape_the_delimiter() {
    let mut ctx = Context::new_empty();
    ctx.command_history = vec![HistoryEntry {
        timestamp: "t1".to_string(),
        command: "echo a | grep b".to_string(),
    }];
    ctx.git_repos = vec![GitInfo {
        repo_path: ".".to_string(),
        branch: "main".to_string(),
        is_dirty: false,
        modified_files: 0,
        untracked_files: 0,
        last_commit_short: "abc merge a|b".to_string(),
    }];
    let output = format_full(&ctx);
    assert!(output.contains("echo a \\| grep b"));
    assert!(output.contains("abc merge a\\|b"));
}

#[test]
fn minimal_lists_only_dirty_repos_full_lists_both() {
    let mut ctx = Context::new_empty();
    ctx.git_repos = vec![repo("dirty-repo", 2, 1), repo("clean-repo", 0, 0)];

    let minimal = format_minimal(&ctx);
    assert!(minimal.contains("**Changed repos:** dirty-repo (2M 1U)"));
    assert!(!minimal.contains("clean-repo"));

    let full = format_full(&ctx);
    assert!(full.contains("| dirty-repo | main | 2M 1U | abc fix |"));
    assert!(full.contains("| clean-repo | main | clean | abc fix |"));
}

#[test]
fn minimal_shows_first_device_only() {
    let mut ctx = Context::new_empty();
    ctx.adb_devices = vec![
        AdbDevice {
            serial: "one".to_string(),
            state: "device".to_string(),
            device_type: "adb".to_string(),
        },
        AdbDevice {
            serial: "two".to_string(),
            state: "fastboot".to_string(),
            device_type: "fastboot".to_string(),
        },
    ];
    let minimal = format_minimal(&ctx);
    assert!(minimal.contains("**Device:** one (adb)"));
    assert!(!minimal.contains("two"));

    let normal = format_normal(&ctx);
    assert!(normal.contains("- one (device, adb)"));
    assert!(normal.contains("- two (fastboot, fastboot)"));
}

#[test]
fn work_state_section_renders_checkboxes() {
    let ws = WorkState {
        saved_at: "2024-05-01".to_string(),
        trigger: "manual".to_string(),
        task_summary: "do things".to_string(),
        working_files: vec!["a.c".to_string(), "b.c".to_string()],
        notes: "note".to_string(),
        todos: vec![
            TodoItem { content: "done item".to_string(), status: "completed".to_string() },
            TodoItem { content: "busy item".to_string(), status: "in_progress".to_string() },
            TodoItem { content: "open item".to_string(), status: "pending".to_string() },
        ],
    };
    let section = format_work_state(&ws);
    let expected = "## Saved Work State\n- **Saved at:** 2024-05-01\n- **Task:** do things\n- **Working files:**\n  - a.c\n  - b.c\n- **Notes:** note\n- **Todos:**\n  - [x] done item\n  - [>] busy item\n  - [ ] open item\n\n";
    assert_eq!(section, expected);
}

#[test]
fn minimal_omits_todos_normal_includes_them() {
    let mut ctx = Context::new_empty();
    ctx.work_state = Some(WorkState {
        saved_at: "2024-05-01".to_string(),
        trigger: "manual".to_string(),
        task_summary: "task".to_string(),
        working_files: vec!["a.c".to_string(), "b.c".to_string()],
        notes: String::new(),
        todos: vec![TodoItem { content: "only here".to_string(), status: "pending".to_string() }],
    });
    let minimal = format_minimal(&ctx);
    assert!(minimal.contains("**Task:** task"));
    assert!(minimal.contains("**Files:** a.c, b.c"));
    assert!(!minimal.contains("only here"));

    let normal = format_normal(&ctx);
    assert!(normal.contains("- [ ] only here"));
}

#[test]
fn full_renders_targets_and_capabilities() {
    let mut ctx = Context::new_empty();
    ctx.project_name = "demo".to_string();
    ctx.targets = vec![context_keeper::context::BuildTarget {
        name: "pixel".to_string(),
        description: "phone".to_string(),
        container_name: "box".to_string(),
        lunch_target: "aosp-user".to_string(),
        can_emulator: true,
        can_flash: true,
    }];
    let full = format_full(&ctx);
    assert!(full.contains("## Project\n- **Name:** demo\n"));
    assert!(full.contains("| pixel | phone | box | aosp-user |"));
    assert!(full.contains("- **pixel:** emulator, flash"));
}
