//! Build-target adapter: parses flat `KEY=VALUE` configuration files into
//! typed build targets, and extracts example commands from the build
//! entry-point script.

use vstd::prelude::*;
use crate::config::Config;
use crate::context::{BuildTarget, BuildTargetV};
use crate::raw::RawBuildFile;
use crate::strutil::{
    dedup_adjacent, dedup_strings, find_char, has_substring, index_of_char,
    lemma_deep_view_push, lemma_deep_view_split, lemma_deep_view_subrange, sort_strings,
    sort_strs, str_contains, trim_char, trim_quote, trim_str, trim_ws,
};

verus! {

/// The number of example commands kept.
pub const MAX_COMMANDS: usize = 10;

/// The key and value of an assignment line: the text before the first
/// `=`, trimmed, and the text after it, trimmed and stripped of double
/// then single quotes.  A line without `=` yields nothing.
pub open spec fn kv_of(line: Seq<char>) -> Option<(Seq<char>, Seq<char>)> {
    let i = index_of_char(line, '=');
    if i < line.len() {
        Some(
            (
                trim_ws(line.take(i)),
                trim_quote(trim_quote(trim_ws(line.skip(i + 1)), '"'), '\''),
            ),
        )
    } else {
        None
    }
}

/// Split an assignment line into its key and value.
pub fn parse_var_assignment(line: &str) -> (r: Option<(String, String)>)
    ensures
        match r {
            Some(kv) => kv_of(line@) == Some((kv.0@, kv.1@)),
            None => kv_of(line@) is None,
        },
{
    match find_char(line, '=') {
        Some(i) => {
            let len = line.unicode_len();
            let key = trim_str(line.substring_char(0, i));
            let after = line.substring_char(i + 1, len);
            let t0 = trim_str(after);
            let t1 = trim_char(t0.as_str(), '"');
            let value = trim_char(t1.as_str(), '\'');
            Some((key, value))
        },
        None => None,
    }
}

/// The empty build target every file starts from.
pub open spec fn empty_target_v() -> BuildTargetV {
    BuildTargetV {
        name: Seq::<char>::empty(),
        description: Seq::<char>::empty(),
        container_name: Seq::<char>::empty(),
        lunch_target: Seq::<char>::empty(),
        can_emulator: false,
        can_flash: false,
    }
}

/// One recognised key applied to a target under construction; an
/// unrecognised key changes nothing.
pub open spec fn apply_kv(t: BuildTargetV, key: Seq<char>, value: Seq<char>) -> BuildTargetV {
    if key == "TARGET_NAME"@ {
        BuildTargetV { name: value, ..t }
    } else if key == "TARGET_DESCRIPTION"@ {
        BuildTargetV { description: value, ..t }
    } else if key == "CONTAINER_NAME"@ {
        BuildTargetV { container_name: value, ..t }
    } else if key == "LUNCH_TARGET"@ {
        BuildTargetV { lunch_target: value, ..t }
    } else if key == "CAN_EMULATOR"@ {
        BuildTargetV { can_emulator: value == "true"@, ..t }
    } else if key == "CAN_FLASH"@ {
        BuildTargetV { can_flash: value == "true"@, ..t }
    } else {
        t
    }
}

/// One line applied to a target under construction: blank lines and
/// comment lines change nothing, assignment lines apply their key.
pub open spec fn apply_line(t: BuildTargetV, line: Seq<char>) -> BuildTargetV {
    let l = trim_ws(line);
    if l.len() == 0 || l[0] == '#' {
        t
    } else {
        match kv_of(l) {
            Some(kv) => apply_kv(t, kv.0, kv.1),
            None => t,
        }
    }
}

/// The target the lines of one file build up, in order.
pub open spec fn target_after(lines: Seq<Seq<char>>) -> BuildTargetV
    decreases lines.len(),
{
    if lines.len() == 0 {
        empty_target_v()
    } else {
        apply_line(target_after(lines.drop_last()), lines.last())
    }
}

/// The target one file yields: its lines folded up, the file's base name
/// standing in when no name was set.
pub open spec fn build_target_of(stem: Seq<char>, lines: Seq<Seq<char>>) -> BuildTargetV {
    let t = target_after(lines);
    if t.name.len() == 0 {
        BuildTargetV { name: stem, ..t }
    } else {
        t
    }
}

fn apply_parsed_line(t: BuildTarget, line: &str) -> (r: BuildTarget)
    ensures
        r@ == apply_line(t@, line@),
{
    let l = trim_str(line);
    let llen = l.as_str().unicode_len();
    if llen == 0 || l.as_str().get_char(0) == '#' {
        t
    } else {
        match parse_var_assignment(l.as_str()) {
            Some(kv) => {
                let mut out = t;
                let key = kv.0;
                let value = kv.1;
                proof {
                    reveal_strlit("TARGET_NAME");
                    reveal_strlit("TARGET_DESCRIPTION");
                    reveal_strlit("CONTAINER_NAME");
                    reveal_strlit("LUNCH_TARGET");
                    reveal_strlit("CAN_EMULATOR");
                    reveal_strlit("CAN_FLASH");
                }
                if crate::strutil::str_eq(key.as_str(), "TARGET_NAME") {
                    out.name = value;
                } else if crate::strutil::str_eq(key.as_str(), "TARGET_DESCRIPTION") {
                    out.description = value;
                } else if crate::strutil::str_eq(key.as_str(), "CONTAINER_NAME") {
                    out.container_name = value;
                } else if crate::strutil::str_eq(key.as_str(), "LUNCH_TARGET") {
                    out.lunch_target = value;
                } else if crate::strutil::str_eq(key.as_str(), "CAN_EMULATOR") {
                    out.can_emulator = crate::strutil::str_eq(value.as_str(), "true");
                } else if crate::strutil::str_eq(key.as_str(), "CAN_FLASH") {
                    out.can_flash = crate::strutil::str_eq(value.as_str(), "true");
                }
                out
            },
            None => t,
        }
    }
}

/// Parse one build configuration file into a target.
pub fn parse_build_file(file: &RawBuildFile) -> (r: BuildTarget)
    ensures
        r@ == build_target_of(file.stem@, file.lines.deep_view()),
{
    let mut t = BuildTarget {
        name: String::new(),
        description: String::new(),
        container_name: String::new(),
        lunch_target: String::new(),
        can_emulator: false,
        can_flash: false,
    };
    let mut i: usize = 0;
    proof {
        assert(file.lines.deep_view().take(0) =~= Seq::<Seq<char>>::empty());
    }
    while i < file.lines.len()
        invariant
            0 <= i <= file.lines@.len(),
            t@ == target_after(file.lines.deep_view().take(i as int)),
        decreases file.lines@.len() - i,
    {
        t = apply_parsed_line(t, file.lines[i].as_str());
        proof {
            assert(file.lines.deep_view().take(i + 1).drop_last() =~= file.lines.deep_view().take(
                i as int,
            ));
            assert(file.lines.deep_view().take(i + 1).last() == file.lines@[i as int]@);
        }
        i = i + 1;
    }
    assert(file.lines.deep_view().take(i as int) =~= file.lines.deep_view());
    if t.name.as_str().unicode_len() == 0 {
        t.name = file.stem.clone();
    }
    t
}

/// A parsed target's name is never empty when the file's base name is
/// not: the base name stands in whenever no name was set.
pub proof fn lemma_target_name_nonempty(stem: Seq<char>, lines: Seq<Seq<char>>)
    requires
        stem.len() > 0,
    ensures
        build_target_of(stem, lines).name.len() > 0,
{
}

/// The targets a sequence of files yields, in file order.
pub open spec fn targets_of(files: Seq<RawBuildFile>) -> Seq<BuildTargetV> {
    Seq::new(files.len(), |i: int| build_target_of(files[i].stem@, files[i].lines.deep_view()))
}

/// Whether the build-target adapter is configured at all: it needs a
/// scripts section with a configuration directory.
pub open spec fn build_configured(config: &Config) -> bool {
    match config.scripts {
        Some(s) => s.config_dir is Some,
        None => false,
    }
}

/// The target list of one run: one target per configuration file found,
/// and none at all when no configuration directory is configured.
pub open spec fn build_targets_of(config: &Config, files: Seq<RawBuildFile>) -> Seq<
    BuildTargetV,
> {
    if build_configured(config) {
        targets_of(files)
    } else {
        Seq::<BuildTargetV>::empty()
    }
}

/// Parse the build configuration files of one run.
pub fn collect_build_targets(config: &Config, files: &Vec<RawBuildFile>) -> (r: Vec<
    BuildTarget,
>)
    ensures
        r.deep_view() == build_targets_of(config, files@),
{
    let configured: bool = match &config.scripts {
        Some(s) => s.config_dir.is_some(),
        None => false,
    };
    let mut out: Vec<BuildTarget> = Vec::new();
    proof {
        assert(out.deep_view() =~= Seq::<BuildTargetV>::empty());
    }
    if !configured {
        return out;
    }
    let mut i: usize = 0;
    proof {
        assert(out.deep_view() =~= targets_of(files@.take(0)));
    }
    while i < files.len()
        invariant
            0 <= i <= files@.len(),
            out.deep_view() == targets_of(files@.take(i as int)),
        decreases files@.len() - i,
    {
        let t = parse_build_file(&files[i]);
        let ghost pre = out;
        let ghost tx = t;
        out.push(t);
        proof {
            lemma_deep_view_push(pre, out, tx);
            assert(out.deep_view() =~= targets_of(files@.take(i + 1)));
        }
        i = i + 1;
    }
    assert(files@.take(i as int) =~= files@);
    out
}

/// A script line listed as an example command: it mentions both a relative
/// invocation and a shell-script call.
pub open spec fn is_command_line(l: Seq<char>) -> bool {
    has_substring(l, "./"@) && has_substring(l, ".sh "@)
}

/// The trimmed command lines of the entry-point script, in order.
pub open spec fn command_lines_of(lines: Seq<Seq<char>>) -> Seq<Seq<char>>
    decreases lines.len(),
{
    if lines.len() == 0 {
        Seq::empty()
    } else {
        command_lines_of(lines.drop_last()) + if is_command_line(trim_ws(lines.last())) {
            seq![trim_ws(lines.last())]
        } else {
            Seq::<Seq<char>>::empty()
        }
    }
}

/// The example-command list: the script's command lines, sorted, without
/// adjacent duplicates, capped to [`MAX_COMMANDS`].
pub open spec fn entry_commands_of(lines: Option<Seq<Seq<char>>>) -> Seq<Seq<char>> {
    match lines {
        Some(ls) => {
            let c = dedup_adjacent(sort_strs(command_lines_of(ls)));
            if c.len() > MAX_COMMANDS {
                c.take(MAX_COMMANDS as int)
            } else {
                c
            }
        },
        None => Seq::<Seq<char>>::empty(),
    }
}

/// Extract the example commands from the entry-point script's lines.
pub fn extract_entry_commands(lines: &Option<Vec<String>>) -> (r: Vec<String>)
    ensures
        r.deep_view() == entry_commands_of(lines.deep_view()),
{
    match lines {
        Some(ls) => {
            let mut found: Vec<String> = Vec::new();
            let mut i: usize = 0;
            proof {
                assert(ls.deep_view().take(0) =~= Seq::<Seq<char>>::empty());
                assert(found.deep_view() =~= command_lines_of(ls.deep_view().take(0)));
            }
            while i < ls.len()
                invariant
                    0 <= i <= ls@.len(),
                    found.deep_view() == command_lines_of(ls.deep_view().take(i as int)),
                decreases ls@.len() - i,
            {
                let t = trim_str(ls[i].as_str());
                if str_contains(t.as_str(), "./") && str_contains(t.as_str(), ".sh ") {
                    let ghost pre = found;
                    let ghost tx = t;
                    found.push(t);
                    proof {
                        lemma_deep_view_push(pre, found, tx);
                        assert(pre.deep_view().push(tx@) =~= pre.deep_view() + seq![tx@]);
                    }
                } else {
                    assert(found.deep_view() =~= found.deep_view() + Seq::<Seq<char>>::empty());
                }
                proof {
                    assert(ls.deep_view().take(i + 1).drop_last() =~= ls.deep_view().take(
                        i as int,
                    ));
                    assert(ls.deep_view().take(i + 1).last() == ls@[i as int]@);
                }
                i = i + 1;
            }
            assert(ls.deep_view().take(i as int) =~= ls.deep_view());
            let sorted = sort_strings(found);
            let mut deduped = dedup_strings(&sorted);
            if deduped.len() > MAX_COMMANDS {
                let ghost pre = deduped;
                deduped.truncate(MAX_COMMANDS);
                proof {
                    lemma_deep_view_subrange(pre, deduped, 0, MAX_COMMANDS as int);
                    assert(deduped.deep_view() =~= entry_commands_of(lines.deep_view()));
                }
            }
            deduped
        },
        None => {
            let out: Vec<String> = Vec::new();
            assert(out.deep_view() =~= Seq::<Seq<char>>::empty());
            out
        },
    }
}

/// Whether an entry-point script is configured.
pub open spec fn entry_configured(config: &Config) -> bool {
    match config.scripts {
        Some(s) => s.entry_point is Some,
        None => false,
    }
}

/// The example-command list of one run: empty without a configured
/// entry-point script.
pub open spec fn commands_of(config: &Config, raw: &crate::raw::RawInputs) -> Seq<Seq<char>> {
    if entry_configured(config) {
        entry_commands_of(raw.entry_lines.deep_view())
    } else {
        Seq::<Seq<char>>::empty()
    }
}

/// The build-target collector: enabled by default; without a scripts
/// section it contributes nothing.
pub struct BuildCollector;

impl crate::collectors::traits::Collector for BuildCollector {
    open spec fn spec_name(&self) -> Seq<char> {
        "build"@
    }

    open spec fn spec_enabled(&self, config: &Config) -> bool {
        true
    }

    open spec fn spec_collect(
        &self,
        config: &Config,
        raw: &crate::raw::RawInputs,
        ctx: crate::context::ContextV,
    ) -> crate::context::ContextV {
        crate::context::ContextV {
            targets: build_targets_of(config, raw.build_files@),
            available_commands: commands_of(config, raw),
            ..ctx
        }
    }

    fn name(&self) -> (r: &'static str) {
        "build"
    }

    fn is_enabled(&self, config: &Config) -> (r: bool) {
        true
    }

    fn collect(
        &self,
        config: &Config,
        raw: &crate::raw::RawInputs,
        ctx: &mut crate::context::Context,
    ) {
        ctx.targets = collect_build_targets(config, &raw.build_files);
        let configured: bool = match &config.scripts {
            Some(s) => s.entry_point.is_some(),
            None => false,
        };
        if configured {
            ctx.available_commands = extract_entry_commands(&raw.entry_lines);
        } else {
            let v: Vec<String> = Vec::new();
            proof {
                assert(v.deep_view() =~= Seq::<Seq<char>>::empty());
            }
            ctx.available_commands = v;
        }
    }
}

} // verus!
