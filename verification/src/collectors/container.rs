//! Container adapter: turns the container runtime's tab-separated list
//! output into typed records.

use vstd::prelude::*;
use crate::config::Config;
use crate::context::{ContainerInfo, ContainerInfoV};
use crate::strutil::{find_char, index_of_char, lemma_deep_view_split};

verus! {

/// The runtime named by the configuration, "podman" by default.
pub open spec fn runtime_of(config: &Config) -> Seq<char> {
    match config.containers {
        Some(c) => match c.runtime {
            Some(r) => r@,
            None => "podman"@,
        },
        None => "podman"@,
    }
}

/// The configured (or default) container runtime name.  The hosting binary
/// invokes the tool of this name; the adapter tags each record with it.
pub fn container_runtime(config: &Config) -> (r: String)
    ensures
        r@ == runtime_of(config),
{
    match &config.containers {
        Some(c) => match &c.runtime {
            Some(r) => r.clone(),
            None => String::from_str("podman"),
        },
        None => String::from_str("podman"),
    }
}

/// The record one output line yields: its first two tab-separated fields
/// as name and status; a line without a tab yields nothing.
pub open spec fn container_of(line: Seq<char>, runtime: Seq<char>) -> Option<ContainerInfoV> {
    let i = index_of_char(line, '\t');
    if i < line.len() {
        let rest = line.skip(i + 1);
        Some(
            ContainerInfoV {
                name: line.take(i),
                status: rest.take(index_of_char(rest, '\t')),
                runtime,
            },
        )
    } else {
        None
    }
}

/// The records a sequence of output lines yields, in order.
pub open spec fn containers_of(lines: Seq<Seq<char>>, runtime: Seq<char>) -> Seq<
    ContainerInfoV,
>
    decreases lines.len(),
{
    if lines.len() == 0 {
        Seq::empty()
    } else {
        containers_of(lines.drop_last(), runtime) + match container_of(lines.last(), runtime) {
            Some(c) => seq![c],
            None => Seq::empty(),
        }
    }
}

/// The container list of one run: empty when the list invocation failed.
pub open spec fn container_list_of(lines: Option<Seq<Seq<char>>>, runtime: Seq<char>) -> Seq<
    ContainerInfoV,
> {
    match lines {
        Some(ls) => containers_of(ls, runtime),
        None => Seq::empty(),
    }
}

fn push_container_line(out: &mut Vec<ContainerInfo>, line: &str, runtime: &String)
    ensures
        final(out).deep_view() == old(out).deep_view() + match container_of(line@, runtime@) {
            Some(c) => seq![c],
            None => Seq::<ContainerInfoV>::empty(),
        },
{
    match find_char(line, '\t') {
        Some(i) => {
            let len = line.unicode_len();
            let name = String::from_str(line.substring_char(0, i));
            let rest = line.substring_char(i + 1, len);
            let status = match find_char(rest, '\t') {
                Some(j) => String::from_str(rest.substring_char(0, j)),
                None => String::from_str(rest),
            };
            proof {
                assert(rest@ == line@.skip(i + 1));
                assert(rest@.take(index_of_char(rest@, '\t')) =~= status@);
            }
            let ghost pre = *out;
            let c = ContainerInfo { name, status, runtime: runtime.clone() };
            out.push(c);
            proof {
                lemma_deep_view_split(pre);
                lemma_deep_view_split(*out);
                assert(container_of(line@, runtime@) == Some(c@));
                assert forall|j: int| 0 <= j < out@.len() implies out.deep_view()[j] == (
                pre.deep_view() + seq![c@])[j] by {
                    assert(out.deep_view()[j] == out@[j].deep_view());
                    if j < pre@.len() {
                        assert(out@[j] == pre@[j]);
                        assert(pre.deep_view()[j] == pre@[j].deep_view());
                    } else {
                        assert(out@[j] == c);
                    }
                }
                assert(out.deep_view() =~= pre.deep_view() + seq![c@]);
            }
        },
        None => {
            assert(out.deep_view() =~= out.deep_view() + Seq::<ContainerInfoV>::empty());
        },
    }
}

/// Build the container list from the runtime's raw list output.
pub fn collect_containers(config: &Config, lines: &Option<Vec<String>>) -> (r: Vec<
    ContainerInfo,
>)
    ensures
        r.deep_view() == container_list_of(lines.deep_view(), runtime_of(config)),
{
    let runtime = container_runtime(config);
    let mut out: Vec<ContainerInfo> = Vec::new();
    proof {
        assert(out.deep_view() =~= Seq::<ContainerInfoV>::empty());
    }
    match lines {
        Some(ls) => {
            let mut i: usize = 0;
            proof {
                assert(containers_of(ls.deep_view().take(0), runtime@) =~= Seq::<
                    ContainerInfoV,
                >::empty());
            }
            while i < ls.len()
                invariant
                    0 <= i <= ls@.len(),
                    runtime@ == runtime_of(config),
                    out.deep_view() == containers_of(ls.deep_view().take(i as int), runtime@),
                decreases ls@.len() - i,
            {
                push_container_line(&mut out, ls[i].as_str(), &runtime);
                proof {
                    assert(ls.deep_view().take(i + 1).drop_last() =~= ls.deep_view().take(
                        i as int,
                    ));
                    assert(ls.deep_view().take(i + 1).last() == ls@[i as int]@);
                }
                i = i + 1;
            }
            assert(ls.deep_view().take(i as int) =~= ls.deep_view());
        },
        None => {},
    }
    out
}

/// The container collector: always enabled, a core feature.
pub struct ContainerCollector;

impl crate::collectors::traits::Collector for ContainerCollector {
    open spec fn spec_name(&self) -> Seq<char> {
        "container"@
    }

    open spec fn spec_enabled(&self, config: &Config) -> bool {
        true
    }

    open spec fn spec_collect(
        &self,
        config: &Config,
        raw: &crate::raw::RawInputs,
        ctx: crate::context::ContextV,
    ) -> crate::context::ContextV {
        crate::context::ContextV {
            containers: container_list_of(raw.container_lines.deep_view(), runtime_of(config)),
            ..ctx
        }
    }

    fn name(&self) -> (r: &'static str) {
        "container"
    }

    fn is_enabled(&self, config: &Config) -> (r: bool) {
        true
    }

    fn collect(
        &self,
        config: &Config,
        raw: &crate::raw::RawInputs,
        ctx: &mut crate::context::Context,
    ) {
        ctx.containers = collect_containers(config, &raw.container_lines);
    }
}

} // verus!
