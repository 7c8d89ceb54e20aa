//! The renderers: three projections of one snapshot into Markdown, under
//! different size budgets, sharing the status and work-state sub-renderers.

pub mod full;
pub mod minimal;
pub mod normal;

pub use full::format_full;
pub use minimal::format_minimal;
pub use normal::format_normal;

use vstd::prelude::*;
use crate::context::{Context, ContextV, GitInfo, GitInfoV, TodoItemV, WorkState, WorkStateV};
use crate::strutil::{dec_str, fmt_usize, lemma_deep_view_split, str_eq};

verus! {

/// The rendered status of one repository: counts with their markers when
/// dirty, the word "clean" otherwise.
pub open spec fn git_status_text(g: GitInfoV) -> Seq<char> {
    if g.is_dirty {
        if g.modified_files > 0 && g.untracked_files > 0 {
            dec_str(g.modified_files) + "M "@ + dec_str(g.untracked_files) + "U"@
        } else if g.modified_files > 0 {
            dec_str(g.modified_files) + "M"@
        } else {
            dec_str(g.untracked_files) + "U"@
        }
    } else {
        "clean"@
    }
}

/// Render one repository's status.
pub fn format_git_status(git: &GitInfo) -> (r: String)
    ensures
        r@ == git_status_text(git@),
{
    if git.is_dirty {
        if git.modified_files > 0 && git.untracked_files > 0 {
            let mut s = fmt_usize(git.modified_files);
            s.append("M ");
            let u = fmt_usize(git.untracked_files);
            s.append(u.as_str());
            s.append("U");
            assert(s@ =~= git_status_text(git@));
            s
        } else if git.modified_files > 0 {
            let mut s = fmt_usize(git.modified_files);
            s.append("M");
            s
        } else {
            let mut s = fmt_usize(git.untracked_files);
            s.append("U");
            s
        }
    } else {
        String::from_str("clean")
    }
}

/// The checkbox a todo status is rendered as.
pub open spec fn todo_checkbox(status: Seq<char>) -> Seq<char> {
    if status == "completed"@ {
        "[x]"@
    } else if status == "in_progress"@ {
        "[>]"@
    } else {
        "[ ]"@
    }
}

/// The indented list lines of the working files.
pub open spec fn file_lines(files: Seq<Seq<char>>) -> Seq<char>
    decreases files.len(),
{
    if files.len() == 0 {
        Seq::empty()
    } else {
        file_lines(files.drop_last()) + "  - "@ + files.last() + "\n"@
    }
}

/// The indented checkbox lines of the todo list.
pub open spec fn todo_lines(todos: Seq<TodoItemV>) -> Seq<char>
    decreases todos.len(),
{
    if todos.len() == 0 {
        Seq::empty()
    } else {
        todo_lines(todos.drop_last()) + "  - "@ + todo_checkbox(todos.last().status) + " "@
            + todos.last().content + "\n"@
    }
}

/// The full work-state section: heading, save stamp, then each non-empty
/// field on its own lines, and a blank line.
pub open spec fn work_state_md(ws: WorkStateV) -> Seq<char> {
    "## Saved Work State\n"@ + "- **Saved at:** "@ + ws.saved_at + "\n"@ + (
    if ws.task_summary.len() > 0 {
        "- **Task:** "@ + ws.task_summary + "\n"@
    } else {
        Seq::<char>::empty()
    }) + (if ws.working_files.len() > 0 {
        "- **Working files:**\n"@ + file_lines(ws.working_files)
    } else {
        Seq::<char>::empty()
    }) + (if ws.notes.len() > 0 {
        "- **Notes:** "@ + ws.notes + "\n"@
    } else {
        Seq::<char>::empty()
    }) + (if ws.todos.len() > 0 {
        "- **Todos:**\n"@ + todo_lines(ws.todos)
    } else {
        Seq::<char>::empty()
    }) + "\n"@
}

/// Render the work-state section.
#[verifier::rlimit(60)]
pub fn format_work_state(work_state: &WorkState) -> (r: String)
    ensures
        r@ == work_state_md(work_state@),
{
    let mut out = String::from_str("## Saved Work State\n");
    out.append("- **Saved at:** ");
    out.append(work_state.saved_at.as_str());
    out.append("\n");
    if work_state.task_summary.as_str().unicode_len() > 0 {
        out.append("- **Task:** ");
        out.append(work_state.task_summary.as_str());
        out.append("\n");
    }
    if work_state.working_files.len() > 0 {
        out.append("- **Working files:**\n");
        let ghost base = out@;
        let mut i: usize = 0;
        proof {
            assert(work_state.working_files.deep_view().take(0) =~= Seq::<Seq<char>>::empty());
            assert(out@ =~= base + file_lines(work_state.working_files.deep_view().take(0)));
        }
        while i < work_state.working_files.len()
            invariant
                0 <= i <= work_state.working_files@.len(),
                out@ == base + file_lines(work_state.working_files.deep_view().take(i as int)),
            decreases work_state.working_files@.len() - i,
        {
            out.append("  - ");
            out.append(work_state.working_files[i].as_str());
            out.append("\n");
            proof {
                lemma_deep_view_split(work_state.working_files);
                let files = work_state.working_files.deep_view();
                assert(files.take(i + 1).drop_last() =~= files.take(i as int));
                assert(files.take(i + 1).last() == files[i as int]);
                assert(out@ =~= base + file_lines(files.take(i + 1)));
            }
            i = i + 1;
        }
        proof {
            assert(work_state.working_files.deep_view().take(i as int)
                =~= work_state.working_files.deep_view());
        }
    }
    if work_state.notes.as_str().unicode_len() > 0 {
        out.append("- **Notes:** ");
        out.append(work_state.notes.as_str());
        out.append("\n");
    }
    if work_state.todos.len() > 0 {
        out.append("- **Todos:**\n");
        let ghost base = out@;
        let mut i: usize = 0;
        proof {
            assert(work_state.todos.deep_view().take(0) =~= Seq::<TodoItemV>::empty());
            assert(out@ =~= base + todo_lines(work_state.todos.deep_view().take(0)));
        }
        while i < work_state.todos.len()
            invariant
                0 <= i <= work_state.todos@.len(),
                out@ == base + todo_lines(work_state.todos.deep_view().take(i as int)),
            decreases work_state.todos@.len() - i,
        {
            out.append("  - ");
            let status = &work_state.todos[i].status;
            if str_eq(status.as_str(), "completed") {
                out.append("[x]");
            } else if str_eq(status.as_str(), "in_progress") {
                out.append("[>]");
            } else {
                out.append("[ ]");
            }
            out.append(" ");
            out.append(work_state.todos[i].content.as_str());
            out.append("\n");
            proof {
                lemma_deep_view_split(work_state.todos);
                let todos = work_state.todos.deep_view();
                assert(todos.take(i + 1).drop_last() =~= todos.take(i as int));
                assert(todos.take(i + 1).last() == todos[i as int]);
                assert(out@ =~= base + todo_lines(todos.take(i + 1)));
            }
            i = i + 1;
        }
        proof {
            assert(work_state.todos.deep_view().take(i as int)
                =~= work_state.todos.deep_view());
        }
    }
    out.append("\n");
    assert(out@ =~= work_state_md(work_state@));
    out
}

/// Append the work-state section when a state is present.
pub fn push_work_state_section(out: &mut String, ws: &Option<WorkState>)
    ensures
        final(out)@ == old(out)@ + (match ws.deep_view() {
            Some(w) => work_state_md(w),
            None => Seq::<char>::empty(),
        }),
{
    match ws {
        Some(w) => {
            let s = format_work_state(w);
            out.append(s.as_str());
        },
        None => {
            assert(out@ =~= out@ + Seq::<char>::empty());
        },
    }
}

/// What one snapshot renders to at a level: the named renderer for
/// "minimal" and "full", and the normal renderer for "normal" and for
/// every unrecognised level.
pub open spec fn rendered(ctx: ContextV, level: Seq<char>) -> Seq<char> {
    if level == "minimal"@ {
        crate::formatters::minimal::minimal_md(ctx)
    } else if level == "full"@ {
        crate::formatters::full::full_md(ctx)
    } else {
        crate::formatters::normal::normal_md(ctx)
    }
}

/// Every unrecognised level renders exactly as the normal level does.
pub proof fn lemma_unknown_level(ctx: ContextV, level: Seq<char>)
    requires
        level != "minimal"@,
        level != "full"@,
    ensures
        rendered(ctx, level) == rendered(ctx, "normal"@),
{
    broadcast use vstd::string::group_string_axioms;

    reveal_strlit("normal");
    reveal_strlit("minimal");
    reveal_strlit("full");
    assert("normal"@.len() == 6);
    assert("minimal"@.len() == 7);
    assert("full"@.len() == 4);
}

/// Render a snapshot at the given verbosity level.
pub fn format_context_markdown(ctx: &Context, level: &str) -> (r: String)
    ensures
        r@ == rendered(ctx@, level@),
{
    if str_eq(level, "minimal") {
        format_minimal(ctx)
    } else if str_eq(level, "full") {
        format_full(ctx)
    } else {
        format_normal(ctx)
    }
}

} // verus!
