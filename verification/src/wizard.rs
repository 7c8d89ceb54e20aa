//! The setup wizard's one computation: rendering the answers it gathered
//! into the configuration file text.  Prompting and writing the file are
//! the hosting binary's business.

use vstd::prelude::*;
use crate::collectors::history::wizard_patterns_for;
use crate::strutil::{lemma_deep_view_split, replace_char, replace_char_seq};

verus! {

/// One suggested pattern as a configuration list line, backslashes
/// doubled for the file format.
pub open spec fn pattern_line(p: Seq<char>) -> Seq<char> {
    "    \""@ + replace_char_seq(p, '\\', "\\\\"@) + "\",\n"@
}

/// The pattern list lines, in order.
pub open spec fn pattern_lines(ps: Seq<Seq<char>>) -> Seq<char>
    decreases ps.len(),
{
    if ps.len() == 0 {
        Seq::empty()
    } else {
        pattern_lines(ps.drop_last()) + pattern_line(ps.last())
    }
}

/// The leading project section.
pub open spec fn project_part(project_name: Seq<char>, project_type: Seq<char>) -> Seq<char> {
    "# ContextKeeper Configuration\n\n"@ + "[project]\n"@ + "name = \""@ + project_name
        + "\"\n"@ + "type = \""@ + project_type + "\"\n"@ + "\n"@
}

/// The scripts section, present only with an entry point.
pub open spec fn scripts_part(entry_point: Seq<char>, config_dir: Seq<char>) -> Seq<char> {
    if entry_point.len() > 0 {
        "[scripts]\n"@ + "entry_point = \""@ + entry_point + "\"\n"@ + (
        if config_dir.len() > 0 {
            "config_dir = \""@ + config_dir + "\"\n"@ + "config_pattern = \"*.conf\"\n"@
        } else {
            Seq::<char>::empty()
        }) + "\n"@
    } else {
        Seq::<char>::empty()
    }
}

/// The containers section, skipped for the answer "none".
pub open spec fn containers_part(container_runtime: Seq<char>) -> Seq<char> {
    if container_runtime != "none"@ {
        "[containers]\n"@ + "runtime = \""@ + container_runtime + "\"\n"@ + "\n"@
    } else {
        Seq::<char>::empty()
    }
}

/// The hints section, present only with a hint.
pub open spec fn hints_part(ai_hint: Seq<char>) -> Seq<char> {
    if ai_hint.len() > 0 {
        "[hints]\n"@ + "default = \""@ + ai_hint + "\"\n"@ + "\n"@
    } else {
        Seq::<char>::empty()
    }
}

/// The history section with type-suited patterns, and the repository-scan
/// defaults.
pub open spec fn history_part(project_type: Seq<char>) -> Seq<char> {
    "[history]\n"@ + "enabled = true\n"@ + "patterns = [\n"@ + pattern_lines(
        wizard_patterns_for(project_type),
    ) + "]\n"@ + "max_entries = 20\n"@ + "\n"@ + "[git]\n"@ + "auto_detect = true\n"@
        + "scan_depth = 2\n"@
}

/// The configuration text the wizard writes for a set of answers: the
/// project section always, the scripts section only with an entry point,
/// the containers section only with a runtime, the hints section only
/// with a hint, then history patterns suited to the project type and the
/// repository-scan defaults.
pub open spec fn config_toml_text(
    project_name: Seq<char>,
    project_type: Seq<char>,
    container_runtime: Seq<char>,
    entry_point: Seq<char>,
    config_dir: Seq<char>,
    ai_hint: Seq<char>,
) -> Seq<char> {
    project_part(project_name, project_type) + scripts_part(entry_point, config_dir)
        + containers_part(container_runtime) + hints_part(ai_hint) + history_part(project_type)
}

fn push_project_part(out: &mut String, project_name: &str, project_type: &str)
    ensures
        final(out)@ == old(out)@ + project_part(project_name@, project_type@),
{
    out.append("# ContextKeeper Configuration\n\n");
    out.append("[project]\n");
    out.append("name = \"");
    out.append(project_name);
    out.append("\"\n");
    out.append("type = \"");
    out.append(project_type);
    out.append("\"\n");
    out.append("\n");
    assert(out@ =~= old(out)@ + project_part(project_name@, project_type@));
}

fn push_scripts_part(out: &mut String, entry_point: &str, config_dir: &str)
    ensures
        final(out)@ == old(out)@ + scripts_part(entry_point@, config_dir@),
{
    if entry_point.unicode_len() > 0 {
        out.append("[scripts]\n");
        out.append("entry_point = \"");
        out.append(entry_point);
        out.append("\"\n");
        if config_dir.unicode_len() > 0 {
            out.append("config_dir = \"");
            out.append(config_dir);
            out.append("\"\n");
            out.append("config_pattern = \"*.conf\"\n");
        }
        out.append("\n");
        assert(out@ =~= old(out)@ + scripts_part(entry_point@, config_dir@));
    } else {
        assert(out@ =~= out@ + Seq::<char>::empty());
    }
}

fn push_containers_part(out: &mut String, container_runtime: &str)
    ensures
        final(out)@ == old(out)@ + containers_part(container_runtime@),
{
    if !crate::strutil::str_eq(container_runtime, "none") {
        out.append("[containers]\n");
        out.append("runtime = \"");
        out.append(container_runtime);
        out.append("\"\n");
        out.append("\n");
        assert(out@ =~= old(out)@ + containers_part(container_runtime@));
    } else {
        assert(out@ =~= out@ + Seq::<char>::empty());
    }
}

fn push_hints_part(out: &mut String, ai_hint: &str)
    ensures
        final(out)@ == old(out)@ + hints_part(ai_hint@),
{
    if ai_hint.unicode_len() > 0 {
        out.append("[hints]\n");
        out.append("default = \"");
        out.append(ai_hint);
        out.append("\"\n");
        out.append("\n");
        assert(out@ =~= old(out)@ + hints_part(ai_hint@));
    } else {
        assert(out@ =~= out@ + Seq::<char>::empty());
    }
}

fn push_history_part(out: &mut String, project_type: &str)
    ensures
        final(out)@ == old(out)@ + history_part(project_type@),
{
    out.append("[history]\n");
    out.append("enabled = true\n");
    out.append("patterns = [\n");
    let patterns = crate::collectors::history::get_default_history_patterns(project_type);
    let ghost ps = wizard_patterns_for(project_type@);
    let ghost base = out@;
    let mut i: usize = 0;
    proof {
        lemma_deep_view_split(patterns);
        assert(ps.take(0) =~= Seq::<Seq<char>>::empty());
        assert(out@ =~= base + pattern_lines(ps.take(0)));
    }
    while i < patterns.len()
        invariant
            0 <= i <= patterns@.len(),
            patterns.deep_view() == ps,
            out@ == base + pattern_lines(ps.take(i as int)),
        decreases patterns@.len() - i,
    {
        proof {
            lemma_deep_view_split(patterns);
            assert(ps.take(i + 1).drop_last() =~= ps.take(i as int));
            assert(ps.take(i + 1).last() == ps[i as int]);
        }
        out.append("    \"");
        let escaped = replace_char(patterns[i], '\\', "\\\\");
        out.append(escaped.as_str());
        out.append("\",\n");
        proof {
            assert(out@ =~= base + pattern_lines(ps.take(i + 1)));
        }
        i = i + 1;
    }
    proof {
        assert(ps.take(i as int) =~= ps);
    }
    out.append("]\n");
    out.append("max_entries = 20\n");
    out.append("\n");
    out.append("[git]\n");
    out.append("auto_detect = true\n");
    out.append("scan_depth = 2\n");
    assert(out@ =~= old(out)@ + history_part(project_type@));
}

/// Render the configuration file for the wizard's answers.
pub fn render_config_toml(
    project_name: &str,
    project_type: &str,
    container_runtime: &str,
    entry_point: &str,
    config_dir: &str,
    ai_hint: &str,
) -> (r: String)
    ensures
        r@ == config_toml_text(
            project_name@,
            project_type@,
            container_runtime@,
            entry_point@,
            config_dir@,
            ai_hint@,
        ),
{
    let mut out = String::new();
    push_project_part(&mut out, project_name, project_type);
    push_scripts_part(&mut out, entry_point, config_dir);
    push_containers_part(&mut out, container_runtime);
    push_hints_part(&mut out, ai_hint);
    push_history_part(&mut out, project_type);
    assert(out@ =~= config_toml_text(
        project_name@,
        project_type@,
        container_runtime@,
        entry_point@,
        config_dir@,
        ai_hint@,
    ));
    out
}

} // verus!
