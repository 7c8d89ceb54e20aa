//! Work-state adapter: recovery of the persisted task summary and the
//! merge of the two hook-maintained fragments into it.
//!
//! The merge policy is deliberately asymmetric and pinned here exactly:
//! a non-empty hook todo list always replaces the saved one, while hook
//! files only fill a saved file list that is empty.  A merged state with
//! nothing in it collapses to "no state".

use vstd::prelude::*;
use crate::context::{
    TodoItem, TodoItemV, WorkState, WorkStateV, empty_work_state_v, work_state_is_empty,
};

verus! {

/// The todo items the hook todo document yields: a function of the
/// document text alone.  A document that is not valid JSON, or has no
/// "todos" array, yields none; otherwise one item per array element that
/// carries string "content" and "status" fields.
pub uninterp spec fn todo_doc_items(doc: Seq<char>) -> Seq<TodoItemV>;

/// Relies on serde_json::from_str, Value::get, Value::as_array and
/// Value::as_str: what the todo document decodes to depends on its text
/// alone.
#[verifier::external_body]
fn parse_todo_doc(doc: &str) -> (r: Vec<TodoItem>)
    ensures
        r.deep_view() == todo_doc_items(doc@),
{
    let parsed: Option<serde_json::Value> = serde_json::from_str(doc).ok();
    match parsed.as_ref().and_then(|v| v.get("todos")).and_then(|t| t.as_array()) {
        Some(arr) => arr.iter().filter_map(
            |item| Some(
                TodoItem {
                    content: item.get("content")?.as_str()?.to_string(),
                    status: item.get("status")?.as_str()?.to_string(),
                },
            ),
        ).collect(),
        None => Vec::new(),
    }
}

/// The file paths the hook recent-files document yields: a function of
/// the document text alone.  A document that is not valid JSON, or has no
/// "files" array, yields none; otherwise one path per array element that
/// carries a string "path" field.
pub uninterp spec fn file_doc_items(doc: Seq<char>) -> Seq<Seq<char>>;

/// Relies on serde_json::from_str, Value::get, Value::as_array and
/// Value::as_str: what the recent-files document decodes to depends on
/// its text alone.
#[verifier::external_body]
fn parse_files_doc(doc: &str) -> (r: Vec<String>)
    ensures
        r.deep_view() == file_doc_items(doc@),
{
    let parsed: Option<serde_json::Value> = serde_json::from_str(doc).ok();
    match parsed.as_ref().and_then(|v| v.get("files")).and_then(|f| f.as_array()) {
        Some(arr) => arr.iter().filter_map(
            |item| item.get("path")?.as_str().map(|s| s.to_string()),
        ).collect(),
        None => Vec::new(),
    }
}

/// The state the merge builds before deciding whether anything is in it:
/// the saved state (or the empty one), its todos replaced by a non-empty
/// hook todo list, its file list filled by the hook files only when it
/// is empty.
pub open spec fn merged_state(
    primary: Option<WorkStateV>,
    hook_todos: Seq<TodoItemV>,
    hook_files: Seq<Seq<char>>,
) -> WorkStateV {
    let base = match primary {
        Some(ws) => ws,
        None => empty_work_state_v(),
    };
    let with_todos = if hook_todos.len() > 0 {
        WorkStateV { todos: hook_todos, ..base }
    } else {
        base
    };
    if hook_files.len() > 0 && with_todos.working_files.len() == 0 {
        WorkStateV { working_files: hook_files, ..with_todos }
    } else {
        with_todos
    }
}

/// The merge's outcome: the merged state, or nothing when every one of
/// its informative fields is empty.
pub open spec fn merge_result(
    primary: Option<WorkStateV>,
    hook_todos: Seq<TodoItemV>,
    hook_files: Seq<Seq<char>>,
) -> Option<WorkStateV> {
    let m = merged_state(primary, hook_todos, hook_files);
    if work_state_is_empty(m) {
        None
    } else {
        Some(m)
    }
}

/// Merge the saved state with the two hook fragments.
pub fn merge_work_state(
    primary: Option<WorkState>,
    hook_todos: Vec<TodoItem>,
    hook_files: Vec<String>,
) -> (r: Option<WorkState>)
    ensures
        r.deep_view() == merge_result(
            primary.deep_view(),
            hook_todos.deep_view(),
            hook_files.deep_view(),
        ),
{
    let mut state = match primary {
        Some(ws) => ws,
        None => WorkState::new_empty(),
    };
    if hook_todos.len() > 0 {
        state.todos = hook_todos;
    }
    if hook_files.len() > 0 && state.working_files.len() == 0 {
        state.working_files = hook_files;
    }
    let empty: bool = state.task_summary.as_str().unicode_len() == 0 && state.todos.len() == 0
        && state.working_files.len() == 0 && state.notes.as_str().unicode_len() == 0;
    proof {
        crate::strutil::lemma_deep_view_split(state.todos);
        crate::strutil::lemma_deep_view_split(state.working_files);
    }
    if empty {
        None
    } else {
        Some(state)
    }
}

/// The todo fragment a hook document yields: none without a document.
pub open spec fn hook_todos_of(doc: Option<Seq<char>>) -> Seq<TodoItemV> {
    match doc {
        Some(d) => todo_doc_items(d),
        None => Seq::<TodoItemV>::empty(),
    }
}

/// The file fragment a hook document yields: none without a document.
pub open spec fn hook_files_of(doc: Option<Seq<char>>) -> Seq<Seq<char>> {
    match doc {
        Some(d) => file_doc_items(d),
        None => Seq::<Seq<char>>::empty(),
    }
}

/// The work state one collection run recovers from the saved document and
/// the two hook documents.
pub open spec fn loaded_work_state(
    primary: Option<WorkStateV>,
    todos_doc: Option<Seq<char>>,
    files_doc: Option<Seq<char>>,
) -> Option<WorkStateV> {
    merge_result(primary, hook_todos_of(todos_doc), hook_files_of(files_doc))
}

/// Recover the work state: decode the hook documents, then merge them
/// into the saved state.  An absent or undecodable saved document enters
/// the merge as "no saved state".
pub fn load_work_state_with_hooks(
    primary: Option<WorkState>,
    todos_doc: Option<&String>,
    files_doc: Option<&String>,
) -> (r: Option<WorkState>)
    ensures
        r.deep_view() == loaded_work_state(
            primary.deep_view(),
            todos_doc.deep_view(),
            files_doc.deep_view(),
        ),
{
    let hook_todos: Vec<TodoItem> = match todos_doc {
        Some(d) => parse_todo_doc(d.as_str()),
        None => {
            let v: Vec<TodoItem> = Vec::new();
            proof {
                assert(v.deep_view() =~= Seq::<TodoItemV>::empty());
            }
            v
        },
    };
    let hook_files: Vec<String> = match files_doc {
        Some(d) => parse_files_doc(d.as_str()),
        None => {
            let v: Vec<String> = Vec::new();
            proof {
                assert(v.deep_view() =~= Seq::<Seq<char>>::empty());
            }
            v
        },
    };
    merge_work_state(primary, hook_todos, hook_files)
}

/// Reloading a non-empty saved state with no hook documents present
/// yields it back unchanged: the read path is the identity on what the
/// save path wrote.
pub proof fn lemma_reload_without_hooks(ws: WorkStateV)
    requires
        !work_state_is_empty(ws),
    ensures
        loaded_work_state(Some(ws), None, None) == Some(ws),
{
}

/// A non-empty hook todo list replaces the saved todo list outright,
/// whatever the saved list held.
pub proof fn lemma_hook_todos_replace(
    primary: WorkStateV,
    hook_todos: Seq<TodoItemV>,
    hook_files: Seq<Seq<char>>,
)
    requires
        hook_todos.len() > 0,
        primary.todos.len() > 0,
    ensures
        merged_state(Some(primary), hook_todos, hook_files).todos == hook_todos,
{
}

/// With no hook files, a non-empty saved file list survives the merge
/// unchanged.
pub proof fn lemma_primary_files_kept(primary: WorkStateV, hook_todos: Seq<TodoItemV>)
    requires
        primary.working_files.len() > 0,
    ensures
        merged_state(Some(primary), hook_todos, Seq::<Seq<char>>::empty()).working_files
            == primary.working_files,
{
}

/// A saved state with every informative field empty collapses to "no
/// state" when no hook document contributes anything either.
pub proof fn lemma_empty_state_collapses(ws: WorkStateV)
    requires
        work_state_is_empty(ws),
    ensures
        loaded_work_state(Some(ws), None, None) is None,
{
}

/// `s` with every leading "./" pair removed, repeatedly.
pub open spec fn strip_dot_slash(s: Seq<char>) -> Seq<char>
    decreases s.len(),
{
    if s.len() >= 2 && s[0] == '.' && s[1] == '/' {
        strip_dot_slash(s.skip(2))
    } else {
        s
    }
}

/// The cleaned path list: each line trimmed, blank lines dropped, and
/// leading "./" markers stripped.
pub open spec fn cleaned_files(lines: Seq<Seq<char>>) -> Seq<Seq<char>>
    decreases lines.len(),
{
    if lines.len() == 0 {
        Seq::empty()
    } else {
        cleaned_files(lines.drop_last()) + (if crate::strutil::trim_ws(lines.last()).len() > 0 {
            seq![strip_dot_slash(crate::strutil::trim_ws(lines.last()))]
        } else {
            Seq::<Seq<char>>::empty()
        })
    }
}

fn strip_leading_dot_slash(s: String) -> (r: String)
    ensures
        r@ == strip_dot_slash(s@),
    decreases s@.len(),
{
    let len = s.as_str().unicode_len();
    if len >= 2 && s.as_str().get_char(0) == '.' && s.as_str().get_char(1) == '/' {
        let rest = String::from_str(s.as_str().substring_char(2, len));
        proof {
            assert(rest@ =~= s@.skip(2));
        }
        strip_leading_dot_slash(rest)
    } else {
        s
    }
}

/// Clean the modified-file paths gathered for an automatic save: trim
/// each line, drop blank ones, strip leading "./" markers.
pub fn clean_working_files(lines: &Vec<String>) -> (r: Vec<String>)
    ensures
        r.deep_view() == cleaned_files(lines.deep_view()),
{
    let mut out: Vec<String> = Vec::new();
    let mut i: usize = 0;
    proof {
        assert(lines.deep_view().take(0) =~= Seq::<Seq<char>>::empty());
        assert(out.deep_view() =~= cleaned_files(lines.deep_view().take(0)));
    }
    while i < lines.len()
        invariant
            0 <= i <= lines@.len(),
            out.deep_view() == cleaned_files(lines.deep_view().take(i as int)),
        decreases lines@.len() - i,
    {
        proof {
            crate::strutil::lemma_deep_view_split(*lines);
            let ls = lines.deep_view();
            assert(ls.take(i + 1).drop_last() =~= ls.take(i as int));
            assert(ls.take(i + 1).last() == ls[i as int]);
        }
        let t = crate::strutil::trim_str(lines[i].as_str());
        if t.as_str().unicode_len() > 0 {
            let cleaned = strip_leading_dot_slash(t);
            let ghost pre = out;
            let ghost cx = cleaned;
            out.push(cleaned);
            proof {
                crate::strutil::lemma_deep_view_push(pre, out, cx);
                assert(pre.deep_view().push(cx@) =~= pre.deep_view() + seq![cx@]);
            }
        } else {
            assert(out.deep_view() =~= out.deep_view() + Seq::<Seq<char>>::empty());
        }
        i = i + 1;
    }
    assert(lines.deep_view().take(i as int) =~= lines.deep_view());
    out
}

fn copy_todo_vec(v: &Vec<TodoItem>) -> (r: Vec<TodoItem>)
    ensures
        r.deep_view() == v.deep_view(),
{
    let mut out: Vec<TodoItem> = Vec::new();
    let mut i: usize = 0;
    while i < v.len()
        invariant
            0 <= i <= v@.len(),
            out@.len() == i,
            forall|j: int| 0 <= j < i ==> out.deep_view()[j] == v.deep_view()[j],
        decreases v@.len() - i,
    {
        let t = TodoItem { content: v[i].content.clone(), status: v[i].status.clone() };
        let ghost tx = t;
        let ghost pre = out;
        out.push(t);
        proof {
            crate::strutil::lemma_deep_view_push(pre, out, tx);
            crate::strutil::lemma_deep_view_split(*v);
        }
        i = i + 1;
    }
    proof {
        crate::strutil::lemma_deep_view_split(*v);
        crate::strutil::lemma_deep_view_split(out);
        assert(out.deep_view() =~= v.deep_view());
    }
    out
}

/// Copy a work state, field for field.
fn copy_work_state(ws: &WorkState) -> (r: WorkState)
    ensures
        r@ == ws@,
{
    WorkState {
        saved_at: ws.saved_at.clone(),
        trigger: ws.trigger.clone(),
        task_summary: ws.task_summary.clone(),
        working_files: crate::strutil::clone_string_vec(&ws.working_files),
        notes: ws.notes.clone(),
        todos: copy_todo_vec(&ws.todos),
    }
}

/// The work-state collector: always enabled, the recovery core.
pub struct WorkStateCollector;

impl crate::collectors::traits::Collector for WorkStateCollector {
    open spec fn spec_name(&self) -> Seq<char> {
        "workstate"@
    }

    open spec fn spec_enabled(&self, config: &crate::config::Config) -> bool {
        true
    }

    open spec fn spec_collect(
        &self,
        config: &crate::config::Config,
        raw: &crate::raw::RawInputs,
        ctx: crate::context::ContextV,
    ) -> crate::context::ContextV {
        crate::context::ContextV {
            work_state: loaded_work_state(
                raw.primary_state.deep_view(),
                raw.todos_doc.deep_view(),
                raw.files_doc.deep_view(),
            ),
            ..ctx
        }
    }

    fn name(&self) -> (r: &'static str) {
        "workstate"
    }

    fn is_enabled(&self, config: &crate::config::Config) -> (r: bool) {
        true
    }

    fn collect(
        &self,
        config: &crate::config::Config,
        raw: &crate::raw::RawInputs,
        ctx: &mut crate::context::Context,
    ) {
        let primary: Option<WorkState> = match &raw.primary_state {
            Some(ws) => Some(copy_work_state(ws)),
            None => None,
        };
        let todos_doc: Option<&String> = match &raw.todos_doc {
            Some(d) => Some(d),
            None => None,
        };
        let files_doc: Option<&String> = match &raw.files_doc {
            Some(d) => Some(d),
            None => None,
        };
        ctx.work_state = load_work_state_with_hooks(primary, todos_doc, files_doc);
    }
}

} // verus!
