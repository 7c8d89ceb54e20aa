//! The minimal renderer: the smallest projection, meant for recovery —
//! hint, work-state essentials, changed repositories, and one device.

use vstd::prelude::*;
use crate::context::{Context, ContextV, GitInfoV, WorkStateV};
use crate::formatters::{format_git_status, git_status_text};
use crate::strutil::{join_sep, join_strings, lemma_deep_view_push, lemma_deep_view_split};

verus! {

/// The rendered "path (status)" entries of the dirty repositories, in
/// order.
pub open spec fn dirty_entries(repos: Seq<GitInfoV>) -> Seq<Seq<char>>
    decreases repos.len(),
{
    if repos.len() == 0 {
        Seq::empty()
    } else {
        dirty_entries(repos.drop_last()) + if repos.last().is_dirty {
            seq![repos.last().repo_path + " ("@ + git_status_text(repos.last()) + ")"@]
        } else {
            Seq::<Seq<char>>::empty()
        }
    }
}

/// The work-state lines of the minimal rendering: task, files and notes
/// when present, todos never, then a blank line.
pub open spec fn minimal_ws_block(ws: WorkStateV) -> Seq<char> {
    (if ws.task_summary.len() > 0 {
        "**Task:** "@ + ws.task_summary + "\n"@
    } else {
        Seq::<char>::empty()
    }) + (if ws.working_files.len() > 0 {
        "**Files:** "@ + join_sep(ws.working_files, ", "@) + "\n"@
    } else {
        Seq::<char>::empty()
    }) + (if ws.notes.len() > 0 {
        "**Notes:** "@ + ws.notes + "\n"@
    } else {
        Seq::<char>::empty()
    }) + "\n"@
}

/// The hint line, when a hint is set.
pub open spec fn hint_block(hints: Seq<char>) -> Seq<char> {
    if hints.len() > 0 {
        "**Hint:** "@ + hints + "\n\n"@
    } else {
        Seq::<char>::empty()
    }
}

/// The changed-repositories line, when any repository is dirty.
pub open spec fn changed_repos_block(repos: Seq<GitInfoV>) -> Seq<char> {
    if dirty_entries(repos).len() > 0 {
        "**Changed repos:** "@ + join_sep(dirty_entries(repos), ", "@) + "\n"@
    } else {
        Seq::<char>::empty()
    }
}

/// The single device line, when any device is attached.
pub open spec fn device_block(ds: Seq<crate::context::AdbDeviceV>) -> Seq<char> {
    if ds.len() > 0 {
        "**Device:** "@ + ds[0].serial + " ("@ + ds[0].device_type + ")\n"@
    } else {
        Seq::<char>::empty()
    }
}

/// The minimal rendering of one snapshot.
pub open spec fn minimal_md(ctx: ContextV) -> Seq<char> {
    "# Context Recovery (Minimal)\n\n"@ + hint_block(ctx.hints) + (match ctx.work_state {
        Some(ws) => minimal_ws_block(ws),
        None => Seq::<char>::empty(),
    }) + changed_repos_block(ctx.git_repos) + device_block(ctx.adb_devices) + "\n---\n"@
        + "*Run `get_dev_context` with level=\"normal\" or \"full\" for more details.*\n"@
}

fn dirty_entry_strings(repos: &Vec<crate::context::GitInfo>) -> (r: Vec<String>)
    ensures
        r.deep_view() == dirty_entries(repos.deep_view()),
{
    let mut out: Vec<String> = Vec::new();
    let mut i: usize = 0;
    proof {
        assert(repos.deep_view().take(0) =~= Seq::<GitInfoV>::empty());
        assert(out.deep_view() =~= dirty_entries(repos.deep_view().take(0)));
    }
    while i < repos.len()
        invariant
            0 <= i <= repos@.len(),
            out.deep_view() == dirty_entries(repos.deep_view().take(i as int)),
        decreases repos@.len() - i,
    {
        proof {
            lemma_deep_view_split(*repos);
            let rs = repos.deep_view();
            assert(rs.take(i + 1).drop_last() =~= rs.take(i as int));
            assert(rs.take(i + 1).last() == rs[i as int]);
        }
        if repos[i].is_dirty {
            let mut entry = repos[i].repo_path.clone();
            entry.append(" (");
            let status = format_git_status(&repos[i]);
            entry.append(status.as_str());
            entry.append(")");
            let ghost pre = out;
            let ghost ex = entry;
            out.push(entry);
            proof {
                lemma_deep_view_push(pre, out, ex);
                assert(ex@ =~= repos.deep_view()[i as int].repo_path + " ("@ + git_status_text(
                    repos.deep_view()[i as int],
                ) + ")"@);
                assert(pre.deep_view().push(ex@) =~= pre.deep_view() + seq![ex@]);
            }
        } else {
            assert(out.deep_view() =~= out.deep_view() + Seq::<Seq<char>>::empty());
        }
        i = i + 1;
    }
    assert(repos.deep_view().take(i as int) =~= repos.deep_view());
    out
}

fn push_hint_block(out: &mut String, hints: &String)
    ensures
        final(out)@ == old(out)@ + hint_block(hints@),
{
    if hints.as_str().unicode_len() > 0 {
        out.append("**Hint:** ");
        out.append(hints.as_str());
        out.append("\n\n");
        assert(out@ =~= old(out)@ + hint_block(hints@));
    } else {
        assert(out@ =~= out@ + Seq::<char>::empty());
    }
}

fn push_minimal_ws(out: &mut String, ws: &Option<crate::context::WorkState>)
    ensures
        final(out)@ == old(out)@ + (match ws.deep_view() {
            Some(w) => minimal_ws_block(w),
            None => Seq::<char>::empty(),
        }),
{
    match ws {
        Some(w) => {
            if w.task_summary.as_str().unicode_len() > 0 {
                out.append("**Task:** ");
                out.append(w.task_summary.as_str());
                out.append("\n");
            }
            if w.working_files.len() > 0 {
                out.append("**Files:** ");
                let joined = join_strings(&w.working_files, ", ");
                out.append(joined.as_str());
                out.append("\n");
            }
            if w.notes.as_str().unicode_len() > 0 {
                out.append("**Notes:** ");
                out.append(w.notes.as_str());
                out.append("\n");
            }
            out.append("\n");
            assert(out@ =~= old(out)@ + minimal_ws_block(w@));
        },
        None => {
            assert(out@ =~= out@ + Seq::<char>::empty());
        },
    }
}

fn push_changed_repos(out: &mut String, repos: &Vec<crate::context::GitInfo>)
    ensures
        final(out)@ == old(out)@ + changed_repos_block(repos.deep_view()),
{
    let entries = dirty_entry_strings(repos);
    if entries.len() > 0 {
        out.append("**Changed repos:** ");
        let joined = join_strings(&entries, ", ");
        out.append(joined.as_str());
        out.append("\n");
        assert(out@ =~= old(out)@ + changed_repos_block(repos.deep_view()));
    } else {
        assert(out@ =~= out@ + Seq::<char>::empty());
    }
}

fn push_device_block(out: &mut String, ds: &Vec<crate::context::AdbDevice>)
    ensures
        final(out)@ == old(out)@ + device_block(ds.deep_view()),
{
    if ds.len() > 0 {
        proof {
            lemma_deep_view_split(*ds);
        }
        out.append("**Device:** ");
        out.append(ds[0].serial.as_str());
        out.append(" (");
        out.append(ds[0].device_type.as_str());
        out.append(")\n");
        assert(out@ =~= old(out)@ + device_block(ds.deep_view()));
    } else {
        assert(out@ =~= out@ + Seq::<char>::empty());
    }
}

/// Render the minimal projection of a snapshot.
pub fn format_minimal(ctx: &Context) -> (r: String)
    ensures
        r@ == minimal_md(ctx@),
{
    let mut out = String::from_str("# Context Recovery (Minimal)\n\n");
    push_hint_block(&mut out, &ctx.hints);
    push_minimal_ws(&mut out, &ctx.work_state);
    push_changed_repos(&mut out, &ctx.git_repos);
    push_device_block(&mut out, &ctx.adb_devices);
    out.append("\n---\n");
    out.append("*Run `get_dev_context` with level=\"normal\" or \"full\" for more details.*\n");
    assert(out@ =~= minimal_md(ctx@));
    out
}

} // verus!
