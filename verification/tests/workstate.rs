//! Work-state tests: the recovery merge, its pinned asymmetry, and the
//! hook-document decoding.

use context_keeper::collectors::workstate::{
    clean_working_files, load_work_state_with_hooks, merge_work_state,
};
use context_keeper::context::{TodoItem, WorkState};

fn sample_state() -> WorkState {
    WorkState {
        saved_at: "2024-05-01T10:00:00Z".to_string(),
        trigger: "manual".to_string(),
        task_summary: "refactor the parser".to_string(),
        working_files: vec!["src/parser.c".to_string()],
        notes: "half done".to_string(),
        todos: vec![TodoItem { content: "write tests".to_string(), status: "pending".to_string() }],
    }
}

#[test]
fn reload_without_hooks_is_identity() {
    let ws = sample_state();
    let reloaded = load_work_state_with_hooks(Some(ws.clone()), None, None);
    assert_eq!(reloaded, Some(ws));
}

#[test]
fn hook_todos_replace_primary_todos() {
    let ws = sample_state();
    let hook = vec![
        TodoItem { content: "new item".to_string(), status: "in_progress".to_string() },
    ];
    let merged = merge_work_state(Some(ws), hook.clone(), Vec::new()).unwrap();
    assert_eq!(merged.todos, hook);
}

#[test]
fn empty_hook_files_keep_primary_files() {
    let ws = sample_state();
    let merged = merge_work_state(Some(ws.clone()), Vec::new(), Vec::new()).unwrap();
    assert_eq!(merged.working_files, ws.working_files);
}

#[test]
fn hook_files_never_overwrite_nonempty_list() {
    let ws = sample_state();
    let hook_files = vec!["other.c".to_string()];
    let merged = merge_work_state(Some(ws.clone()), Vec::new(), hook_files.clone()).unwrap();
    assert_eq!(merged.working_files, ws.working_files);

    let mut empty_files = sample_state();
    empty_files.working_files = Vec::new();
    let merged = merge_work_state(Some(empty_files), Vec::new(), hook_files.clone()).unwrap();
    assert_eq!(merged.working_files, hook_files);
}

#[test]
fn all_empty_state_collapses_to_none() {
    let ws = WorkState {
        saved_at: "2024-05-01T10:00:00Z".to_string(),
        trigger: "auto".to_string(),
        task_summary: String::new(),
        working_files: Vec::new(),
        notes: String::new(),
        todos: Vec::new(),
    };
    assert_eq!(merge_work_state(Some(ws), Vec::new(), Vec::new()), None);
    assert_eq!(merge_work_state(None, Vec::new(), Vec::new()), None);
}

#[test]
fn hook_documents_are_decoded() {
    let todos_doc = "{\"todos\": [{\"content\": \"step one\", \"status\": \"completed\"},{\"content\": \"step two\", \"status\": \"pending\"},{\"content\": \"broken\"}]}"
    .to_string();
    let files_doc = "{\"files\": [{\"path\": \"a.c\"}, {\"path\": \"b.c\"}, {\"kind\": \"x\"}]}"
        .to_string();
    let loaded = load_work_state_with_hooks(None, Some(&todos_doc), Some(&files_doc)).unwrap();
    assert_eq!(loaded.todos.len(), 2);
    assert_eq!(loaded.todos[0].content, "step one");
    assert_eq!(loaded.todos[0].status, "completed");
    assert_eq!(loaded.todos[1].content, "step two");
    assert_eq!(loaded.working_files, vec!["a.c", "b.c"]);
    assert!(loaded.task_summary.is_empty());
}

#[test]
fn malformed_hook_documents_yield_nothing() {
    let bad = "not json at all".to_string();
    assert_eq!(load_work_state_with_hooks(None, Some(&bad), Some(&bad)), None);

    let wrong_shape = "{\"todos\": 7}".to_string();
    assert_eq!(load_work_state_with_hooks(None, Some(&wrong_shape), None), None);
}

#[test]
fn working_file_lines_are_cleaned() {
    let raw = vec![
        " ./src/a.c ".to_string(),
        "".to_string(),
        "././nested.c".to_string(),
        "plain.c".to_string(),
        "   ".to_string(),
    ];
    let cleaned = clean_working_files(&raw);
    assert_eq!(cleaned, vec!["src/a.c", "nested.c", "plain.c"]);
}
