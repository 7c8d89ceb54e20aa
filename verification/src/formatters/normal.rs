//! The normal renderer: the balanced projection — full work state,
//! hints, dirty repositories as a table, containers and devices.

use vstd::prelude::*;
use crate::context::{AdbDeviceV, ContainerInfoV, Context, ContextV, GitInfoV};
use crate::formatters::{format_git_status, git_status_text, push_work_state_section, work_state_md};
use crate::strutil::lemma_deep_view_split;

verus! {

/// Some repository of `repos` is dirty.
pub open spec fn has_dirty(repos: Seq<GitInfoV>) -> bool
    decreases repos.len(),
{
    if repos.len() == 0 {
        false
    } else {
        has_dirty(repos.drop_last()) || repos.last().is_dirty
    }
}

/// The table rows of the dirty repositories, in order.
pub open spec fn dirty_rows(repos: Seq<GitInfoV>) -> Seq<char>
    decreases repos.len(),
{
    if repos.len() == 0 {
        Seq::empty()
    } else {
        dirty_rows(repos.drop_last()) + if repos.last().is_dirty {
            "| "@ + repos.last().repo_path + " | "@ + repos.last().branch + " | "@
                + git_status_text(repos.last()) + " |\n"@
        } else {
            Seq::<char>::empty()
        }
    }
}

/// The container list lines.
pub open spec fn container_lines(cs: Seq<ContainerInfoV>) -> Seq<char>
    decreases cs.len(),
{
    if cs.len() == 0 {
        Seq::empty()
    } else {
        container_lines(cs.drop_last()) + "- "@ + cs.last().name + " ("@ + cs.last().status
            + ")\n"@
    }
}

/// The device list lines.
pub open spec fn device_lines(ds: Seq<AdbDeviceV>) -> Seq<char>
    decreases ds.len(),
{
    if ds.len() == 0 {
        Seq::empty()
    } else {
        device_lines(ds.drop_last()) + "- "@ + ds.last().serial + " ("@ + ds.last().state
            + ", "@ + ds.last().device_type + ")\n"@
    }
}

/// The hints section of the normal rendering.
pub open spec fn hints_section(hints: Seq<char>) -> Seq<char> {
    if hints.len() > 0 {
        "## AI Hints\n"@ + "> "@ + hints + "\n\n"@
    } else {
        Seq::<char>::empty()
    }
}

/// The dirty-repositories table, when any repository is dirty.
pub open spec fn git_section(repos: Seq<GitInfoV>) -> Seq<char> {
    if has_dirty(repos) {
        "## Git Status (changes only)\n\n"@ + "| Repository | Branch | Status |\n"@
            + "|------------|--------|--------|\n"@ + dirty_rows(repos) + "\n"@
    } else {
        Seq::<char>::empty()
    }
}

/// The containers section, when any container runs.
pub open spec fn containers_section(cs: Seq<ContainerInfoV>) -> Seq<char> {
    if cs.len() > 0 {
        "## Active Containers\n"@ + container_lines(cs) + "\n"@
    } else {
        Seq::<char>::empty()
    }
}

/// The devices section, when any device is attached.
pub open spec fn devices_section(ds: Seq<AdbDeviceV>) -> Seq<char> {
    if ds.len() > 0 {
        "## Connected Devices\n"@ + device_lines(ds) + "\n"@
    } else {
        Seq::<char>::empty()
    }
}

/// The normal rendering of one snapshot.
pub open spec fn normal_md(ctx: ContextV) -> Seq<char> {
    "# Development Context\n\n"@ + (match ctx.work_state {
        Some(ws) => work_state_md(ws),
        None => Seq::<char>::empty(),
    }) + hints_section(ctx.hints) + git_section(ctx.git_repos) + containers_section(
        ctx.containers,
    ) + devices_section(ctx.adb_devices) + "---\n"@
        + "*Run `get_dev_context` with level=\"full\" for complete information.*\n"@
}

fn any_dirty(repos: &Vec<crate::context::GitInfo>) -> (r: bool)
    ensures
        r == has_dirty(repos.deep_view()),
{
    let mut found = false;
    let mut i: usize = 0;
    proof {
        assert(repos.deep_view().take(0) =~= Seq::<GitInfoV>::empty());
    }
    while i < repos.len()
        invariant
            0 <= i <= repos@.len(),
            found == has_dirty(repos.deep_view().take(i as int)),
        decreases repos@.len() - i,
    {
        proof {
            lemma_deep_view_split(*repos);
            let rs = repos.deep_view();
            assert(rs.take(i + 1).drop_last() =~= rs.take(i as int));
            assert(rs.take(i + 1).last() == rs[i as int]);
        }
        if repos[i].is_dirty {
            found = true;
        }
        i = i + 1;
    }
    assert(repos.deep_view().take(i as int) =~= repos.deep_view());
    found
}

fn push_hints_section(out: &mut String, hints: &String)
    ensures
        final(out)@ == old(out)@ + hints_section(hints@),
{
    if hints.as_str().unicode_len() > 0 {
        out.append("## AI Hints\n");
        out.append("> ");
        out.append(hints.as_str());
        out.append("\n\n");
        assert(out@ =~= old(out)@ + hints_section(hints@));
    } else {
        assert(out@ =~= out@ + Seq::<char>::empty());
    }
}

fn push_git_section(out: &mut String, repos: &Vec<crate::context::GitInfo>)
    ensures
        final(out)@ == old(out)@ + git_section(repos.deep_view()),
{
    if !any_dirty(repos) {
        assert(out@ =~= out@ + Seq::<char>::empty());
        return ;
    }
    out.append("## Git Status (changes only)\n\n");
    out.append("| Repository | Branch | Status |\n");
    out.append("|------------|--------|--------|\n");
    let ghost base = out@;
    let mut i: usize = 0;
    proof {
        assert(repos.deep_view().take(0) =~= Seq::<GitInfoV>::empty());
        assert(out@ =~= base + dirty_rows(repos.deep_view().take(0)));
    }
    while i < repos.len()
        invariant
            0 <= i <= repos@.len(),
            out@ == base + dirty_rows(repos.deep_view().take(i as int)),
        decreases repos@.len() - i,
    {
        proof {
            lemma_deep_view_split(*repos);
            let rs = repos.deep_view();
            assert(rs.take(i + 1).drop_last() =~= rs.take(i as int));
            assert(rs.take(i + 1).last() == rs[i as int]);
        }
        if repos[i].is_dirty {
            out.append("| ");
            out.append(repos[i].repo_path.as_str());
            out.append(" | ");
            out.append(repos[i].branch.as_str());
            out.append(" | ");
            let status = format_git_status(&repos[i]);
            out.append(status.as_str());
            out.append(" |\n");
            proof {
                assert(out@ =~= base + dirty_rows(repos.deep_view().take(i + 1)));
            }
        }
        i = i + 1;
    }
    proof {
        assert(repos.deep_view().take(i as int) =~= repos.deep_view());
    }
    out.append("\n");
    assert(out@ =~= old(out)@ + git_section(repos.deep_view()));
}

fn push_containers_section(out: &mut String, containers: &Vec<crate::context::ContainerInfo>)
    ensures
        final(out)@ == old(out)@ + containers_section(containers.deep_view()),
{
    if containers.len() == 0 {
        assert(out@ =~= out@ + Seq::<char>::empty());
        return ;
    }
    out.append("## Active Containers\n");
    let ghost base = out@;
    let mut i: usize = 0;
    proof {
        assert(containers.deep_view().take(0) =~= Seq::<ContainerInfoV>::empty());
        assert(out@ =~= base + container_lines(containers.deep_view().take(0)));
    }
    while i < containers.len()
        invariant
            0 <= i <= containers@.len(),
            out@ == base + container_lines(containers.deep_view().take(i as int)),
        decreases containers@.len() - i,
    {
        out.append("- ");
        out.append(containers[i].name.as_str());
        out.append(" (");
        out.append(containers[i].status.as_str());
        out.append(")\n");
        proof {
            lemma_deep_view_split(*containers);
            let cs = containers.deep_view();
            assert(cs.take(i + 1).drop_last() =~= cs.take(i as int));
            assert(cs.take(i + 1).last() == cs[i as int]);
            assert(out@ =~= base + container_lines(cs.take(i + 1)));
        }
        i = i + 1;
    }
    proof {
        assert(containers.deep_view().take(i as int) =~= containers.deep_view());
    }
    out.append("\n");
    assert(out@ =~= old(out)@ + containers_section(containers.deep_view()));
}

fn push_devices_section(out: &mut String, devices: &Vec<crate::context::AdbDevice>)
    ensures
        final(out)@ == old(out)@ + devices_section(devices.deep_view()),
{
    if devices.len() == 0 {
        assert(out@ =~= out@ + Seq::<char>::empty());
        return ;
    }
    out.append("## Connected Devices\n");
    let ghost base = out@;
    let mut i: usize = 0;
    proof {
        assert(devices.deep_view().take(0) =~= Seq::<AdbDeviceV>::empty());
        assert(out@ =~= base + device_lines(devices.deep_view().take(0)));
    }
    while i < devices.len()
        invariant
            0 <= i <= devices@.len(),
            out@ == base + device_lines(devices.deep_view().take(i as int)),
        decreases devices@.len() - i,
    {
        out.append("- ");
        out.append(devices[i].serial.as_str());
        out.append(" (");
        out.append(devices[i].state.as_str());
        out.append(", ");
        out.append(devices[i].device_type.as_str());
        out.append(")\n");
        proof {
            lemma_deep_view_split(*devices);
            let ds = devices.deep_view();
            assert(ds.take(i + 1).drop_last() =~= ds.take(i as int));
            assert(ds.take(i + 1).last() == ds[i as int]);
            assert(out@ =~= base + device_lines(ds.take(i + 1)));
        }
        i = i + 1;
    }
    proof {
        assert(devices.deep_view().take(i as int) =~= devices.deep_view());
    }
    out.append("\n");
    assert(out@ =~= old(out)@ + devices_section(devices.deep_view()));
}

/// Render the normal projection of a snapshot.
pub fn format_normal(ctx: &Context) -> (r: String)
    ensures
        r@ == normal_md(ctx@),
{
    let mut out = String::from_str("# Development Context\n\n");
    push_work_state_section(&mut out, &ctx.work_state);
    push_hints_section(&mut out, &ctx.hints);
    push_git_section(&mut out, &ctx.git_repos);
    push_containers_section(&mut out, &ctx.containers);
    push_devices_section(&mut out, &ctx.adb_devices);
    out.append("---\n");
    out.append("*Run `get_dev_context` with level=\"full\" for complete information.*\n");
    assert(out@ =~= normal_md(ctx@));
    out
}

} // verus!
