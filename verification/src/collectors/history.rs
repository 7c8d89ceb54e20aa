//! Command-history adapter: keeps the relevant entries of a line-delimited
//! JSON command log.
//!
//! A line is kept when it parses as JSON, names a non-empty command, and
//! the command matches one of the configured patterns (or the valid
//! patterns are none).  The list is capped to the configured maximum,
//! keeping the most recent entries in order.

use vstd::prelude::*;
use crate::config::{Config, HistoryConfig};
use crate::context::{HistoryEntry, HistoryEntryV};
use crate::strutil::{lemma_deep_view_push, lemma_deep_view_split, lemma_deep_view_subrange};

verus! {

/// The timestamp and command fields that one log line yields under JSON
/// parsing: nothing when the line is not valid JSON, else the two string
/// fields with the empty string standing in for a missing one.
pub uninterp spec fn history_line_fields(line: Seq<char>) -> Option<HistoryEntryV>;

/// Relies on serde_json::from_str, Value::get and Value::as_str: what a
/// line parses to depends on the line alone.  A line that is not valid
/// JSON yields nothing; otherwise the entry holds the line's "timestamp"
/// and "command" string fields, each empty when absent or not a string.
#[verifier::external_body]
fn parse_history_line(line: &str) -> (r: Option<HistoryEntry>)
    ensures
        r.deep_view() == history_line_fields(line@),
{
    match serde_json::from_str::<serde_json::Value>(line) {
        Ok(v) => {
            let timestamp = v.get("timestamp").and_then(|t| t.as_str()).unwrap_or("");
            let command = v.get("command").and_then(|c| c.as_str()).unwrap_or("");
            Some(HistoryEntry { timestamp: timestamp.to_string(), command: command.to_string() })
        },
        Err(_) => None,
    }
}

/// Whether a pattern is a valid regular expression: a property of the
/// pattern text alone.
pub uninterp spec fn regex_valid(pattern: Seq<char>) -> bool;

/// Whether a valid pattern matches somewhere in a text: a property of the
/// two texts alone.
pub uninterp spec fn regex_match(pattern: Seq<char>, text: Seq<char>) -> bool;

/// Relies on regex::Regex::new and regex::Regex::is_match: whether the
/// pattern compiles, and whether it then matches anywhere in the text,
/// depend on the two strings alone.
#[verifier::external_body]
fn regex_try_match(pattern: &str, text: &str) -> (r: Option<bool>)
    ensures
        r is Some <==> regex_valid(pattern@),
        match r {
            Some(b) => b == regex_match(pattern@, text@),
            None => true,
        },
{
    match regex::Regex::new(pattern) {
        Ok(re) => Some(re.is_match(text)),
        Err(_) => None,
    }
}

/// Some pattern of `ps` is a valid regular expression.
pub open spec fn any_valid(ps: Seq<Seq<char>>) -> bool {
    exists|i: int| 0 <= i < ps.len() && regex_valid(#[trigger] ps[i])
}

/// Some valid pattern of `ps` matches `cmd`.
pub open spec fn any_match(ps: Seq<Seq<char>>, cmd: Seq<char>) -> bool {
    exists|i: int|
        0 <= i < ps.len() && regex_valid(#[trigger] ps[i]) && regex_match(ps[i], cmd)
}

proof fn lemma_any_step(ps: Seq<Seq<char>>, cmd: Seq<char>, k: int)
    requires
        0 <= k < ps.len(),
    ensures
        any_valid(ps.take(k + 1)) == (any_valid(ps.take(k)) || regex_valid(ps[k])),
        any_match(ps.take(k + 1), cmd) == (any_match(ps.take(k), cmd) || (regex_valid(ps[k])
            && regex_match(ps[k], cmd))),
{
    assert(ps.take(k + 1)[k] == ps[k]);
    if any_valid(ps.take(k + 1)) {
        let i = choose|i: int| 0 <= i < ps.take(k + 1).len() && regex_valid(#[trigger] ps.take(k + 1)[i]);
        if i < k {
            assert(regex_valid(ps.take(k)[i]));
        }
    }
    if any_valid(ps.take(k)) {
        let i = choose|i: int| 0 <= i < ps.take(k).len() && regex_valid(#[trigger] ps.take(k)[i]);
        assert(regex_valid(ps.take(k + 1)[i]));
    }
    if regex_valid(ps[k]) {
        assert(regex_valid(ps.take(k + 1)[k]));
    }
    if any_match(ps.take(k + 1), cmd) {
        let i = choose|i: int|
            0 <= i < ps.take(k + 1).len() && regex_valid(#[trigger] ps.take(k + 1)[i])
                && regex_match(ps.take(k + 1)[i], cmd);
        if i < k {
            assert(regex_valid(ps.take(k)[i]) && regex_match(ps.take(k)[i], cmd));
        }
    }
    if any_match(ps.take(k), cmd) {
        let i = choose|i: int|
            0 <= i < ps.take(k).len() && regex_valid(#[trigger] ps.take(k)[i]) && regex_match(
                ps.take(k)[i],
                cmd,
            );
        assert(regex_valid(ps.take(k + 1)[i]) && regex_match(ps.take(k + 1)[i], cmd));
    }
    if regex_valid(ps[k]) && regex_match(ps[k], cmd) {
        assert(regex_valid(ps.take(k + 1)[k]) && regex_match(ps.take(k + 1)[k], cmd));
    }
}

/// A command passes the filter when the valid patterns are none, or some
/// valid pattern matches it.
pub open spec fn command_passes(ps: Seq<Seq<char>>, cmd: Seq<char>) -> bool {
    !any_valid(ps) || any_match(ps, cmd)
}

/// Whether `cmd` passes the pattern filter.
fn command_matches(patterns: &Vec<String>, cmd: &str) -> (r: bool)
    ensures
        r == command_passes(patterns.deep_view(), cmd@),
{
    let ghost ps = patterns.deep_view();
    let mut seen_valid = false;
    let mut matched = false;
    let mut k: usize = 0;
    proof {
        assert(!any_valid(ps.take(0)));
        assert(!any_match(ps.take(0), cmd@));
    }
    while k < patterns.len()
        invariant
            0 <= k <= patterns@.len(),
            ps == patterns.deep_view(),
            seen_valid == any_valid(ps.take(k as int)),
            matched == any_match(ps.take(k as int), cmd@),
        decreases patterns@.len() - k,
    {
        proof {
            lemma_deep_view_split(*patterns);
            lemma_any_step(ps, cmd@, k as int);
        }
        match regex_try_match(patterns[k].as_str(), cmd) {
            Some(b) => {
                seen_valid = true;
                if b {
                    matched = true;
                }
            },
            None => {},
        }
        k = k + 1;
    }
    assert(ps.take(k as int) =~= ps);
    !seen_valid || matched
}

/// The default command patterns the adapter falls back to.
pub open spec fn default_patterns() -> Seq<Seq<char>> {
    seq![
        "lunch\\s+\\S+"@,
        "source\\s+.*envsetup"@,
        "export\\s+\\w+="@,
        "m\\s+\\S+"@,
        "mm\\b"@,
        "mma\\b"@,
    ]
}

/// Build the default pattern list.
pub fn default_history_patterns() -> (r: Vec<String>)
    ensures
        r.deep_view() == default_patterns(),
{
    let mut v: Vec<String> = Vec::new();
    v.push(String::from_str("lunch\\s+\\S+"));
    v.push(String::from_str("source\\s+.*envsetup"));
    v.push(String::from_str("export\\s+\\w+="));
    v.push(String::from_str("m\\s+\\S+"));
    v.push(String::from_str("mm\\b"));
    v.push(String::from_str("mma\\b"));
    proof {
        lemma_deep_view_split(v);
        assert(v.deep_view() =~= default_patterns());
    }
    v
}

/// The entry one log line contributes under a pattern list: nothing for
/// an unparseable line, an empty command, or a command that fails the
/// filter.
pub open spec fn entry_kept(line: Seq<char>, ps: Seq<Seq<char>>) -> Option<HistoryEntryV> {
    match history_line_fields(line) {
        None => None,
        Some(e) => if e.command.len() > 0 && command_passes(ps, e.command) {
            Some(e)
        } else {
            None
        },
    }
}

/// The kept entries of a sequence of log lines, in order.
pub open spec fn kept_entries(lines: Seq<Seq<char>>, ps: Seq<Seq<char>>) -> Seq<HistoryEntryV>
    decreases lines.len(),
{
    if lines.len() == 0 {
        Seq::empty()
    } else {
        kept_entries(lines.drop_last(), ps) + match entry_kept(lines.last(), ps) {
            Some(e) => seq![e],
            None => Seq::empty(),
        }
    }
}

/// The most recent `max` entries of `s`, in original order.
pub open spec fn capped(s: Seq<HistoryEntryV>, max: int) -> Seq<HistoryEntryV> {
    if s.len() > max {
        s.skip(s.len() - max)
    } else {
        s
    }
}

/// The pattern list a history configuration calls for.
pub open spec fn patterns_of(hc: HistoryConfig) -> Seq<Seq<char>> {
    match hc.patterns {
        Some(p) => p.deep_view(),
        None => default_patterns(),
    }
}

/// The retention cap a history configuration calls for.
pub open spec fn max_of(hc: HistoryConfig) -> int {
    match hc.max_entries {
        Some(m) => m as int,
        None => 20,
    }
}

/// Whether a history configuration enables collection.
pub open spec fn history_enabled_of(hc: HistoryConfig) -> bool {
    match hc.enabled {
        Some(b) => b,
        None => true,
    }
}

/// Whether the history collector runs: enabled unless switched off.
pub open spec fn history_collector_enabled(config: &Config) -> bool {
    match config.history {
        Some(hc) => history_enabled_of(hc),
        None => true,
    }
}

/// The history list of one run: empty without a history section, with
/// collection switched off, or with an unreadable log; else the kept
/// entries of the log lines, capped.
pub open spec fn history_of(config: &Config, lines: Option<Seq<Seq<char>>>) -> Seq<
    HistoryEntryV,
> {
    match config.history {
        None => Seq::<HistoryEntryV>::empty(),
        Some(hc) => if !history_enabled_of(hc) {
            Seq::<HistoryEntryV>::empty()
        } else {
            match lines {
                None => Seq::<HistoryEntryV>::empty(),
                Some(ls) => capped(kept_entries(ls, patterns_of(hc)), max_of(hc)),
            }
        },
    }
}

/// Collect the kept command-history entries of one run.
pub fn collect_command_history(config: &Config, lines: &Option<Vec<String>>) -> (r: Vec<
    HistoryEntry,
>)
    ensures
        r.deep_view() == history_of(config, lines.deep_view()),
{
    let empty: Vec<HistoryEntry> = Vec::new();
    proof {
        assert(empty.deep_view() =~= Seq::<HistoryEntryV>::empty());
    }
    let hc = match &config.history {
        Some(hc) => hc,
        None => {
            return empty;
        },
    };
    let enabled: bool = match hc.enabled {
        Some(b) => b,
        None => true,
    };
    if !enabled {
        return empty;
    }
    let ls = match lines {
        Some(ls) => ls,
        None => {
            return empty;
        },
    };
    let default_vec = default_history_patterns();
    let patterns: &Vec<String> = match &hc.patterns {
        Some(p) => p,
        None => &default_vec,
    };
    let ghost ps = patterns_of(*hc);
    proof {
        assert(patterns.deep_view() == ps);
    }
    let mut entries: Vec<HistoryEntry> = Vec::new();
    let mut i: usize = 0;
    proof {
        assert(ls.deep_view().take(0) =~= Seq::<Seq<char>>::empty());
        assert(entries.deep_view() =~= kept_entries(ls.deep_view().take(0), ps));
    }
    while i < ls.len()
        invariant
            0 <= i <= ls@.len(),
            ps == patterns.deep_view(),
            entries.deep_view() == kept_entries(ls.deep_view().take(i as int), ps),
        decreases ls@.len() - i,
    {
        match parse_history_line(ls[i].as_str()) {
            Some(e) => {
                if e.command.as_str().unicode_len() > 0 && command_matches(
                    patterns,
                    e.command.as_str(),
                ) {
                    let ghost pre = entries;
                    let ghost ex = e;
                    entries.push(e);
                    proof {
                        lemma_deep_view_push(pre, entries, ex);
                        assert(pre.deep_view().push(ex@) =~= pre.deep_view() + seq![ex@]);
                    }
                } else {
                    assert(entries.deep_view() =~= entries.deep_view() + Seq::<
                        HistoryEntryV,
                    >::empty());
                }
            },
            None => {
                assert(entries.deep_view() =~= entries.deep_view() + Seq::<
                    HistoryEntryV,
                >::empty());
            },
        }
        proof {
            assert(ls.deep_view().take(i + 1).drop_last() =~= ls.deep_view().take(i as int));
            assert(ls.deep_view().take(i + 1).last() == ls@[i as int]@);
        }
        i = i + 1;
    }
    assert(ls.deep_view().take(i as int) =~= ls.deep_view());
    let max: usize = match hc.max_entries {
        Some(m) => m,
        None => 20,
    };
    if entries.len() > max {
        let ghost pre = entries;
        let cut: usize = entries.len() - max;
        let tail = entries.split_off(cut);
        proof {
            lemma_deep_view_subrange(pre, tail, cut as int, pre@.len() as int);
            assert(tail.deep_view() =~= capped(kept_entries(ls.deep_view(), ps), max as int));
        }
        tail
    } else {
        entries
    }
}

/// For every entry list longer than the cap, exactly the most recent
/// `max` entries remain, in their original relative order.
pub proof fn lemma_history_cap(s: Seq<HistoryEntryV>, max: int)
    requires
        0 <= max < s.len(),
    ensures
        capped(s, max).len() == max,
        forall|i: int| 0 <= i < max ==> capped(s, max)[i] == s[s.len() - max + i],
{
}

/// The wizard's suggested command patterns for a project type.
pub open spec fn wizard_patterns_for(project_type: Seq<char>) -> Seq<Seq<char>> {
    if project_type == "aosp"@ {
        seq![
            "lunch\\s+\\S+"@,
            "source.*envsetup"@,
            "export\\s+\\w+="@,
            "m\\s+\\S+"@,
            "mm\\b"@,
            "mma\\b"@,
        ]
    } else if project_type == "ros"@ {
        seq![
            "source.*setup\\.bash"@,
            "colcon\\s+build"@,
            "catkin_make"@,
            "ros2\\s+run"@,
            "ros2\\s+launch"@,
            "roslaunch"@,
        ]
    } else if project_type == "yocto"@ {
        seq!["source.*oe-init"@, "bitbake\\s+\\S+"@, "MACHINE="@, "devtool\\s+\\S+"@]
    } else {
        seq!["export\\s+\\w+="@, "source\\s+"@]
    }
}

/// Suggested history patterns for a project type, as the setup wizard
/// writes them into a fresh configuration.
pub fn get_default_history_patterns(project_type: &str) -> (r: Vec<&'static str>)
    ensures
        r.deep_view() == wizard_patterns_for(project_type@),
{
    let mut v: Vec<&'static str> = Vec::new();
    if crate::strutil::str_eq(project_type, "aosp") {
        v.push("lunch\\s+\\S+");
        v.push("source.*envsetup");
        v.push("export\\s+\\w+=");
        v.push("m\\s+\\S+");
        v.push("mm\\b");
        v.push("mma\\b");
    } else if crate::strutil::str_eq(project_type, "ros") {
        v.push("source.*setup\\.bash");
        v.push("colcon\\s+build");
        v.push("catkin_make");
        v.push("ros2\\s+run");
        v.push("ros2\\s+launch");
        v.push("roslaunch");
    } else if crate::strutil::str_eq(project_type, "yocto") {
        v.push("source.*oe-init");
        v.push("bitbake\\s+\\S+");
        v.push("MACHINE=");
        v.push("devtool\\s+\\S+");
    } else {
        v.push("export\\s+\\w+=");
        v.push("source\\s+");
    }
    proof {
        lemma_deep_view_split(v);
        assert(v.deep_view() =~= wizard_patterns_for(project_type@));
    }
    v
}

/// The command-history collector: enabled unless switched off.
pub struct HistoryCollector;

impl crate::collectors::traits::Collector for HistoryCollector {
    open spec fn spec_name(&self) -> Seq<char> {
        "history"@
    }

    open spec fn spec_enabled(&self, config: &Config) -> bool {
        history_collector_enabled(config)
    }

    open spec fn spec_collect(
        &self,
        config: &Config,
        raw: &crate::raw::RawInputs,
        ctx: crate::context::ContextV,
    ) -> crate::context::ContextV {
        crate::context::ContextV {
            command_history: history_of(config, raw.history_lines.deep_view()),
            ..ctx
        }
    }

    fn name(&self) -> (r: &'static str) {
        "history"
    }

    fn is_enabled(&self, config: &Config) -> (r: bool) {
        match &config.history {
            Some(hc) => match hc.enabled {
                Some(b) => b,
                None => true,
            },
            None => true,
        }
    }

    fn collect(
        &self,
        config: &Config,
        raw: &crate::raw::RawInputs,
        ctx: &mut crate::context::Context,
    ) {
        ctx.command_history = collect_command_history(config, &raw.history_lines);
    }
}

} // verus!
