//! The full renderer: the complete projection — everything the snapshot
//! holds, with long commands and commit summaries truncated and table
//! cells escaped.

use vstd::prelude::*;
use crate::context::{
    AdbDeviceV, BuildTargetV, ContainerInfoV, Context, ContextV, GitInfoV, HistoryEntryV,
};
use crate::formatters::{format_git_status, git_status_text, push_work_state_section, work_state_md};
use crate::strutil::{lemma_deep_view_split, replace_char, replace_char_seq};

verus! {

/// The number of characters a rendered history command is capped to,
/// ellipsis included.
pub const MAX_COMMAND_CHARS: usize = 80;

/// A history command as displayed: unchanged up to 80 characters, else
/// its first 77 characters with an ellipsis marker.
pub open spec fn truncated_command(cmd: Seq<char>) -> Seq<char> {
    if cmd.len() > 80 {
        cmd.take(77) + "..."@
    } else {
        cmd
    }
}

/// For every command longer than 80 characters the display is exactly
/// the first 77 characters followed by the three-character ellipsis
/// marker, 80 characters in all.
pub proof fn lemma_command_truncation(cmd: Seq<char>)
    requires
        cmd.len() > 80,
    ensures
        truncated_command(cmd).len() == 80,
        truncated_command(cmd).take(77) == cmd.take(77),
        truncated_command(cmd).skip(77) == "..."@,
{
    reveal_strlit("...");
    assert(truncated_command(cmd).take(77) =~= cmd.take(77));
    assert(truncated_command(cmd).skip(77) =~= "..."@);
}

/// A table cell with the table delimiter escaped.
pub open spec fn escaped_cell(s: Seq<char>) -> Seq<char> {
    replace_char_seq(s, '|', "\\|"@)
}

fn escape_cell(s: &str) -> (r: String)
    ensures
        r@ == escaped_cell(s@),
{
    replace_char(s, '|', "\\|")
}

/// The project section: present only when the snapshot names a project.
pub open spec fn project_block(ctx: ContextV) -> Seq<char> {
    if ctx.project_name.len() > 0 {
        "## Project\n"@ + "- **Name:** "@ + ctx.project_name + "\n"@ + (
        if ctx.project_type.len() > 0 {
            "- **Type:** "@ + ctx.project_type + "\n"@
        } else {
            Seq::<char>::empty()
        }) + "\n"@
    } else {
        Seq::<char>::empty()
    }
}

/// One build-target table row.
pub open spec fn target_row(t: BuildTargetV) -> Seq<char> {
    "| "@ + t.name + " | "@ + t.description + " | "@ + t.container_name + " | "@
        + t.lunch_target + " |\n"@
}

/// The build-target table rows, in order.
pub open spec fn target_rows(ts: Seq<BuildTargetV>) -> Seq<char>
    decreases ts.len(),
{
    if ts.len() == 0 {
        Seq::empty()
    } else {
        target_rows(ts.drop_last()) + target_row(ts.last())
    }
}

/// A target's capability list, joined with a comma.
pub open spec fn caps_text(t: BuildTargetV) -> Seq<char> {
    if t.can_emulator && t.can_flash {
        "emulator, flash"@
    } else if t.can_emulator {
        "emulator"@
    } else if t.can_flash {
        "flash"@
    } else {
        Seq::<char>::empty()
    }
}

/// The capability lines: one per target with at least one capability.
pub open spec fn cap_lines(ts: Seq<BuildTargetV>) -> Seq<char>
    decreases ts.len(),
{
    if ts.len() == 0 {
        Seq::empty()
    } else {
        cap_lines(ts.drop_last()) + if caps_text(ts.last()).len() > 0 {
            "- **"@ + ts.last().name + ":** "@ + caps_text(ts.last()) + "\n"@
        } else {
            Seq::<char>::empty()
        }
    }
}

/// The build-targets section.
pub open spec fn targets_block(ts: Seq<BuildTargetV>) -> Seq<char> {
    if ts.len() > 0 {
        "## Available Build Targets\n\n"@ + "| Target | Description | Container | Lunch Target |\n"@
            + "|--------|-------------|-----------|---------------|\n"@ + target_rows(ts)
            + "\n"@ + "### Target Capabilities\n"@ + cap_lines(ts) + "\n"@
    } else {
        Seq::<char>::empty()
    }
}

/// The container lines of the full rendering.
pub open spec fn container_lines_full(cs: Seq<ContainerInfoV>) -> Seq<char>
    decreases cs.len(),
{
    if cs.len() == 0 {
        Seq::empty()
    } else {
        container_lines_full(cs.drop_last()) + "- **"@ + cs.last().name + "** ("@
            + cs.last().runtime + "): "@ + cs.last().status + "\n"@
    }
}

/// The example-command lines.
pub open spec fn command_block_lines(cmds: Seq<Seq<char>>) -> Seq<char>
    decreases cmds.len(),
{
    if cmds.len() == 0 {
        Seq::empty()
    } else {
        command_block_lines(cmds.drop_last()) + cmds.last() + "\n"@
    }
}

/// One history table row: timestamp, then the truncated and escaped
/// command in backticks.
pub open spec fn history_row(e: HistoryEntryV) -> Seq<char> {
    "| "@ + e.timestamp + " | `"@ + escaped_cell(truncated_command(e.command)) + "` |\n"@
}

/// The history table rows, in order.
pub open spec fn history_rows(es: Seq<HistoryEntryV>) -> Seq<char>
    decreases es.len(),
{
    if es.len() == 0 {
        Seq::empty()
    } else {
        history_rows(es.drop_last()) + history_row(es.last())
    }
}

/// One repository table row of the full rendering.
pub open spec fn git_row_full(g: GitInfoV) -> Seq<char> {
    "| "@ + g.repo_path + " | "@ + g.branch + " | "@ + git_status_text(g) + " | "@
        + escaped_cell(g.last_commit_short) + " |\n"@
}

/// The repository table rows, clean and dirty alike, in order.
pub open spec fn git_rows_full(repos: Seq<GitInfoV>) -> Seq<char>
    decreases repos.len(),
{
    if repos.len() == 0 {
        Seq::empty()
    } else {
        git_rows_full(repos.drop_last()) + git_row_full(repos.last())
    }
}

/// The device table rows, in order.
pub open spec fn device_rows(ds: Seq<AdbDeviceV>) -> Seq<char>
    decreases ds.len(),
{
    if ds.len() == 0 {
        Seq::empty()
    } else {
        device_rows(ds.drop_last()) + "| "@ + ds.last().serial + " | "@ + ds.last().state
            + " | "@ + ds.last().device_type + " |\n"@
    }
}

/// The hints section of the full rendering.
pub open spec fn hints_section_full(hints: Seq<char>) -> Seq<char> {
    if hints.len() > 0 {
        "## AI Hints (Important)\n"@ + "> "@ + hints + "\n\n"@
    } else {
        Seq::<char>::empty()
    }
}

/// The containers section of the full rendering.
pub open spec fn containers_block_full(cs: Seq<ContainerInfoV>) -> Seq<char> {
    if cs.len() > 0 {
        "## Active Containers\n"@ + container_lines_full(cs) + "\n"@
    } else {
        Seq::<char>::empty()
    }
}

/// The example-commands section.
pub open spec fn commands_block(cmds: Seq<Seq<char>>) -> Seq<char> {
    if cmds.len() > 0 {
        "## Example Commands\n"@ + "```bash\n"@ + command_block_lines(cmds) + "```\n"@
    } else {
        Seq::<char>::empty()
    }
}

/// The command-history section.
pub open spec fn history_block(es: Seq<HistoryEntryV>) -> Seq<char> {
    if es.len() > 0 {
        "## Recent Relevant Commands\n"@
            + "These commands were executed in previous sessions (useful after context compression):\n\n"@
            + "| Time | Command |\n"@ + "|------|--------|\n"@ + history_rows(es) + "\n"@
    } else {
        Seq::<char>::empty()
    }
}

/// The repositories section of the full rendering, clean and dirty alike.
pub open spec fn git_block_full(repos: Seq<GitInfoV>) -> Seq<char> {
    if repos.len() > 0 {
        "## Git Status\n\n"@ + "| Repository | Branch | Status | Last Commit |\n"@
            + "|------------|--------|--------|-------------|\n"@ + git_rows_full(repos)
            + "\n"@
    } else {
        Seq::<char>::empty()
    }
}

/// The devices section of the full rendering.
pub open spec fn devices_block_full(ds: Seq<AdbDeviceV>) -> Seq<char> {
    if ds.len() > 0 {
        "## Connected Devices\n"@ + "| Serial | State | Type |\n"@
            + "|--------|-------|------|\n"@ + device_rows(ds) + "\n"@
    } else {
        Seq::<char>::empty()
    }
}

/// The full rendering of one snapshot.
pub open spec fn full_md(ctx: ContextV) -> Seq<char> {
    "# Development Context (Full)\n\n"@ + project_block(ctx) + (match ctx.work_state {
        Some(ws) => work_state_md(ws),
        None => Seq::<char>::empty(),
    }) + hints_section_full(ctx.hints) + targets_block(ctx.targets) + containers_block_full(
        ctx.containers,
    ) + commands_block(ctx.available_commands) + history_block(ctx.command_history)
        + git_block_full(ctx.git_repos) + devices_block_full(ctx.adb_devices)
}

fn push_project_block(out: &mut String, ctx: &Context)
    ensures
        final(out)@ == old(out)@ + project_block(ctx@),
{
    if ctx.project_name.as_str().unicode_len() > 0 {
        out.append("## Project\n");
        out.append("- **Name:** ");
        out.append(ctx.project_name.as_str());
        out.append("\n");
        if ctx.project_type.as_str().unicode_len() > 0 {
            out.append("- **Type:** ");
            out.append(ctx.project_type.as_str());
            out.append("\n");
        }
        out.append("\n");
        assert(out@ =~= old(out)@ + project_block(ctx@));
    } else {
        assert(out@ =~= out@ + Seq::<char>::empty());
    }
}

fn push_hints_block(out: &mut String, hints: &String)
    ensures
        final(out)@ == old(out)@ + hints_section_full(hints@),
{
    if hints.as_str().unicode_len() > 0 {
        out.append("## AI Hints (Important)\n");
        out.append("> ");
        out.append(hints.as_str());
        out.append("\n\n");
        assert(out@ =~= old(out)@ + hints_section_full(hints@));
    } else {
        assert(out@ =~= out@ + Seq::<char>::empty());
    }
}

fn push_targets_block(out: &mut String, targets: &Vec<crate::context::BuildTarget>)
    ensures
        final(out)@ == old(out)@ + targets_block(targets.deep_view()),
{
    if targets.len() == 0 {
        assert(out@ =~= out@ + Seq::<char>::empty());
        return ;
    }
    out.append("## Available Build Targets\n\n");
    out.append("| Target | Description | Container | Lunch Target |\n");
    out.append("|--------|-------------|-----------|---------------|\n");
    let ghost base = out@;
    let mut i: usize = 0;
    proof {
        assert(targets.deep_view().take(0) =~= Seq::<BuildTargetV>::empty());
        assert(out@ =~= base + target_rows(targets.deep_view().take(0)));
    }
    while i < targets.len()
        invariant
            0 <= i <= targets@.len(),
            out@ == base + target_rows(targets.deep_view().take(i as int)),
        decreases targets@.len() - i,
    {
        out.append("| ");
        out.append(targets[i].name.as_str());
        out.append(" | ");
        out.append(targets[i].description.as_str());
        out.append(" | ");
        out.append(targets[i].container_name.as_str());
        out.append(" | ");
        out.append(targets[i].lunch_target.as_str());
        out.append(" |\n");
        proof {
            lemma_deep_view_split(*targets);
            let ts = targets.deep_view();
            assert(ts.take(i + 1).drop_last() =~= ts.take(i as int));
            assert(ts.take(i + 1).last() == ts[i as int]);
            assert(out@ =~= base + target_rows(ts.take(i + 1)));
        }
        i = i + 1;
    }
    proof {
        assert(targets.deep_view().take(i as int) =~= targets.deep_view());
    }
    out.append("\n");
    out.append("### Target Capabilities\n");
    let ghost caps_base = out@;
    let mut i: usize = 0;
    proof {
        assert(targets.deep_view().take(0) =~= Seq::<BuildTargetV>::empty());
        assert(out@ =~= caps_base + cap_lines(targets.deep_view().take(0)));
    }
    while i < targets.len()
        invariant
            0 <= i <= targets@.len(),
            out@ == caps_base + cap_lines(targets.deep_view().take(i as int)),
        decreases targets@.len() - i,
    {
        proof {
            lemma_deep_view_split(*targets);
            let ts = targets.deep_view();
            assert(ts.take(i + 1).drop_last() =~= ts.take(i as int));
            assert(ts.take(i + 1).last() == ts[i as int]);
            reveal_strlit("emulator, flash");
            reveal_strlit("emulator");
            reveal_strlit("flash");
        }
        if targets[i].can_emulator || targets[i].can_flash {
            out.append("- **");
            out.append(targets[i].name.as_str());
            out.append(":** ");
            if targets[i].can_emulator && targets[i].can_flash {
                out.append("emulator, flash");
            } else if targets[i].can_emulator {
                out.append("emulator");
            } else {
                out.append("flash");
            }
            out.append("\n");
            proof {
                assert(out@ =~= caps_base + cap_lines(targets.deep_view().take(i + 1)));
            }
        }
        i = i + 1;
    }
    proof {
        assert(targets.deep_view().take(i as int) =~= targets.deep_view());
    }
    out.append("\n");
    assert(out@ =~= old(out)@ + targets_block(targets.deep_view()));
}

fn push_containers_block(out: &mut String, containers: &Vec<crate::context::ContainerInfo>)
    ensures
        final(out)@ == old(out)@ + containers_block_full(containers.deep_view()),
{
    if containers.len() == 0 {
        assert(out@ =~= out@ + Seq::<char>::empty());
        return ;
    }
    out.append("## Active Containers\n");
    let ghost base = out@;
    let mut i: usize = 0;
    proof {
        assert(containers.deep_view().take(0) =~= Seq::<ContainerInfoV>::empty());
        assert(out@ =~= base + container_lines_full(containers.deep_view().take(0)));
    }
    while i < containers.len()
        invariant
            0 <= i <= containers@.len(),
            out@ == base + container_lines_full(containers.deep_view().take(i as int)),
        decreases containers@.len() - i,
    {
        out.append("- **");
        out.append(containers[i].name.as_str());
        out.append("** (");
        out.append(containers[i].runtime.as_str());
        out.append("): ");
        out.append(containers[i].status.as_str());
        out.append("\n");
        proof {
            lemma_deep_view_split(*containers);
            let cs = containers.deep_view();
            assert(cs.take(i + 1).drop_last() =~= cs.take(i as int));
            assert(cs.take(i + 1).last() == cs[i as int]);
            assert(out@ =~= base + container_lines_full(cs.take(i + 1)));
        }
        i = i + 1;
    }
    proof {
        assert(containers.deep_view().take(i as int) =~= containers.deep_view());
    }
    out.append("\n");
    assert(out@ =~= old(out)@ + containers_block_full(containers.deep_view()));
}

fn push_commands_block(out: &mut String, cmds: &Vec<String>)
    ensures
        final(out)@ == old(out)@ + commands_block(cmds.deep_view()),
{
    if cmds.len() == 0 {
        assert(out@ =~= out@ + Seq::<char>::empty());
        return ;
    }
    out.append("## Example Commands\n");
    out.append("```bash\n");
    let ghost base = out@;
    let mut i: usize = 0;
    proof {
        assert(cmds.deep_view().take(0) =~= Seq::<Seq<char>>::empty());
        assert(out@ =~= base + command_block_lines(cmds.deep_view().take(0)));
    }
    while i < cmds.len()
        invariant
            0 <= i <= cmds@.len(),
            out@ == base + command_block_lines(cmds.deep_view().take(i as int)),
        decreases cmds@.len() - i,
    {
        out.append(cmds[i].as_str());
        out.append("\n");
        proof {
            lemma_deep_view_split(*cmds);
            let cs = cmds.deep_view();
            assert(cs.take(i + 1).drop_last() =~= cs.take(i as int));
            assert(cs.take(i + 1).last() == cs[i as int]);
            assert(out@ =~= base + command_block_lines(cs.take(i + 1)));
        }
        i = i + 1;
    }
    proof {
        assert(cmds.deep_view().take(i as int) =~= cmds.deep_view());
    }
    out.append("```\n");
    assert(out@ =~= old(out)@ + commands_block(cmds.deep_view()));
}

fn push_history_block(out: &mut String, entries: &Vec<crate::context::HistoryEntry>)
    ensures
        final(out)@ == old(out)@ + history_block(entries.deep_view()),
{
    if entries.len() == 0 {
        assert(out@ =~= out@ + Seq::<char>::empty());
        return ;
    }
    out.append("## Recent Relevant Commands\n");
    out.append(
        "These commands were executed in previous sessions (useful after context compression):\n\n",
    );
    out.append("| Time | Command |\n");
    out.append("|------|--------|\n");
    let ghost base = out@;
    let mut i: usize = 0;
    proof {
        assert(entries.deep_view().take(0) =~= Seq::<HistoryEntryV>::empty());
        assert(out@ =~= base + history_rows(entries.deep_view().take(0)));
    }
    while i < entries.len()
        invariant
            0 <= i <= entries@.len(),
            out@ == base + history_rows(entries.deep_view().take(i as int)),
        decreases entries@.len() - i,
    {
        out.append("| ");
        out.append(entries[i].timestamp.as_str());
        out.append(" | `");
        let cmd = &entries[i].command;
        let cmd_len = cmd.as_str().unicode_len();
        let display: String = if cmd_len > MAX_COMMAND_CHARS {
            let mut d = String::from_str(cmd.as_str().substring_char(0, 77));
            d.append("...");
            d
        } else {
            String::from_str(cmd.as_str())
        };
        proof {
            assert(display@ =~= truncated_command(cmd@));
        }
        let escaped = escape_cell(display.as_str());
        out.append(escaped.as_str());
        out.append("` |\n");
        proof {
            lemma_deep_view_split(*entries);
            let es = entries.deep_view();
            assert(es.take(i + 1).drop_last() =~= es.take(i as int));
            assert(es.take(i + 1).last() == es[i as int]);
            assert(out@ =~= base + history_rows(es.take(i + 1)));
        }
        i = i + 1;
    }
    proof {
        assert(entries.deep_view().take(i as int) =~= entries.deep_view());
    }
    out.append("\n");
    assert(out@ =~= old(out)@ + history_block(entries.deep_view()));
}

fn push_git_block(out: &mut String, repos: &Vec<crate::context::GitInfo>)
    ensures
        final(out)@ == old(out)@ + git_block_full(repos.deep_view()),
{
    if repos.len() == 0 {
        assert(out@ =~= out@ + Seq::<char>::empty());
        return ;
    }
    out.append("## Git Status\n\n");
    out.append("| Repository | Branch | Status | Last Commit |\n");
    out.append("|------------|--------|--------|-------------|\n");
    let ghost base = out@;
    let mut i: usize = 0;
    proof {
        assert(repos.deep_view().take(0) =~= Seq::<GitInfoV>::empty());
        assert(out@ =~= base + git_rows_full(repos.deep_view().take(0)));
    }
    while i < repos.len()
        invariant
            0 <= i <= repos@.len(),
            out@ == base + git_rows_full(repos.deep_view().take(i as int)),
        decreases repos@.len() - i,
    {
        out.append("| ");
        out.append(repos[i].repo_path.as_str());
        out.append(" | ");
        out.append(repos[i].branch.as_str());
        out.append(" | ");
        let status = format_git_status(&repos[i]);
        out.append(status.as_str());
        out.append(" | ");
        let commit = escape_cell(repos[i].last_commit_short.as_str());
        out.append(commit.as_str());
        out.append(" |\n");
        proof {
            lemma_deep_view_split(*repos);
            let rs = repos.deep_view();
            assert(rs.take(i + 1).drop_last() =~= rs.take(i as int));
            assert(rs.take(i + 1).last() == rs[i as int]);
            assert(out@ =~= base + git_rows_full(rs.take(i + 1)));
        }
        i = i + 1;
    }
    proof {
        assert(repos.deep_view().take(i as int) =~= repos.deep_view());
    }
    out.append("\n");
    assert(out@ =~= old(out)@ + git_block_full(repos.deep_view()));
}

fn push_devices_block(out: &mut String, devices: &Vec<crate::context::AdbDevice>)
    ensures
        final(out)@ == old(out)@ + devices_block_full(devices.deep_view()),
{
    if devices.len() == 0 {
        assert(out@ =~= out@ + Seq::<char>::empty());
        return ;
    }
    out.append("## Connected Devices\n");
    out.append("| Serial | State | Type |\n");
    out.append("|--------|-------|------|\n");
    let ghost base = out@;
    let mut i: usize = 0;
    proof {
        assert(devices.deep_view().take(0) =~= Seq::<AdbDeviceV>::empty());
        assert(out@ =~= base + device_rows(devices.deep_view().take(0)));
    }
    while i < devices.len()
        invariant
            0 <= i <= devices@.len(),
            out@ == base + device_rows(devices.deep_view().take(i as int)),
        decreases devices@.len() - i,
    {
        out.append("| ");
        out.append(devices[i].serial.as_str());
        out.append(" | ");
        out.append(devices[i].state.as_str());
        out.append(" | ");
        out.append(devices[i].device_type.as_str());
        out.append(" |\n");
        proof {
            lemma_deep_view_split(*devices);
            let ds = devices.deep_view();
            assert(ds.take(i + 1).drop_last() =~= ds.take(i as int));
            assert(ds.take(i + 1).last() == ds[i as int]);
            assert(out@ =~= base + device_rows(ds.take(i + 1)));
        }
        i = i + 1;
    }
    proof {
        assert(devices.deep_view().take(i as int) =~= devices.deep_view());
    }
    out.append("\n");
    assert(out@ =~= old(out)@ + devices_block_full(devices.deep_view()));
}

/// Render the full projection of a snapshot.
pub fn format_full(ctx: &Context) -> (r: String)
    ensures
        r@ == full_md(ctx@),
{
    let mut out = String::from_str("# Development Context (Full)\n\n");
    push_project_block(&mut out, ctx);
    push_work_state_section(&mut out, &ctx.work_state);
    push_hints_block(&mut out, &ctx.hints);
    push_targets_block(&mut out, &ctx.targets);
    push_containers_block(&mut out, &ctx.containers);
    push_commands_block(&mut out, &ctx.available_commands);
    push_history_block(&mut out, &ctx.command_history);
    push_git_block(&mut out, &ctx.git_repos);
    push_devices_block(&mut out, &ctx.adb_devices);
    assert(out@ =~= full_md(ctx@));
    out
}

} // verus!
