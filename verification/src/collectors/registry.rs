//! The collector registry: the fixed, ordered set of adapters and the
//! pipeline that runs the enabled ones against a shared snapshot.

use vstd::prelude::*;
use crate::collectors::adb::AdbCollector;
use crate::collectors::build_targets::BuildCollector;
use crate::collectors::container::ContainerCollector;
use crate::collectors::git::GitCollector;
use crate::collectors::history::HistoryCollector;
use crate::collectors::traits::Collector;
use crate::collectors::workstate::WorkStateCollector;
use crate::config::Config;
use crate::context::{Context, ContextV, empty_context_v};
use crate::raw::RawInputs;

verus! {

/// One entry of the registry: the collector set is fixed and known at
/// build time, so it is a closed set of variants rather than an open
/// plugin list.
pub enum CollectorKind {
    Build(BuildCollector),
    Container(ContainerCollector),
    Git(GitCollector),
    History(HistoryCollector),
    Adb(AdbCollector),
    WorkState(WorkStateCollector),
}

impl Collector for CollectorKind {
    open spec fn spec_name(&self) -> Seq<char> {
        match self {
            CollectorKind::Build(c) => c.spec_name(),
            CollectorKind::Container(c) => c.spec_name(),
            CollectorKind::Git(c) => c.spec_name(),
            CollectorKind::History(c) => c.spec_name(),
            CollectorKind::Adb(c) => c.spec_name(),
            CollectorKind::WorkState(c) => c.spec_name(),
        }
    }

    open spec fn spec_enabled(&self, config: &Config) -> bool {
        match self {
            CollectorKind::Build(c) => c.spec_enabled(config),
            CollectorKind::Container(c) => c.spec_enabled(config),
            CollectorKind::Git(c) => c.spec_enabled(config),
            CollectorKind::History(c) => c.spec_enabled(config),
            CollectorKind::Adb(c) => c.spec_enabled(config),
            CollectorKind::WorkState(c) => c.spec_enabled(config),
        }
    }

    open spec fn spec_collect(&self, config: &Config, raw: &RawInputs, ctx: ContextV) -> ContextV {
        match self {
            CollectorKind::Build(c) => c.spec_collect(config, raw, ctx),
            CollectorKind::Container(c) => c.spec_collect(config, raw, ctx),
            CollectorKind::Git(c) => c.spec_collect(config, raw, ctx),
            CollectorKind::History(c) => c.spec_collect(config, raw, ctx),
            CollectorKind::Adb(c) => c.spec_collect(config, raw, ctx),
            CollectorKind::WorkState(c) => c.spec_collect(config, raw, ctx),
        }
    }

    fn name(&self) -> (r: &'static str) {
        match self {
            CollectorKind::Build(c) => c.name(),
            CollectorKind::Container(c) => c.name(),
            CollectorKind::Git(c) => c.name(),
            CollectorKind::History(c) => c.name(),
            CollectorKind::Adb(c) => c.name(),
            CollectorKind::WorkState(c) => c.name(),
        }
    }

    fn is_enabled(&self, config: &Config) -> (r: bool) {
        match self {
            CollectorKind::Build(c) => c.is_enabled(config),
            CollectorKind::Container(c) => c.is_enabled(config),
            CollectorKind::Git(c) => c.is_enabled(config),
            CollectorKind::History(c) => c.is_enabled(config),
            CollectorKind::Adb(c) => c.is_enabled(config),
            CollectorKind::WorkState(c) => c.is_enabled(config),
        }
    }

    fn collect(&self, config: &Config, raw: &RawInputs, ctx: &mut Context) {
        match self {
            CollectorKind::Build(c) => c.collect(config, raw, ctx),
            CollectorKind::Container(c) => c.collect(config, raw, ctx),
            CollectorKind::Git(c) => c.collect(config, raw, ctx),
            CollectorKind::History(c) => c.collect(config, raw, ctx),
            CollectorKind::Adb(c) => c.collect(config, raw, ctx),
            CollectorKind::WorkState(c) => c.collect(config, raw, ctx),
        }
    }
}

/// The registry's fixed order: build targets, containers, repositories,
/// history, devices, work state.
pub open spec fn default_registry() -> Seq<CollectorKind> {
    seq![
        CollectorKind::Build(BuildCollector),
        CollectorKind::Container(ContainerCollector),
        CollectorKind::Git(GitCollector),
        CollectorKind::History(HistoryCollector),
        CollectorKind::Adb(AdbCollector),
        CollectorKind::WorkState(WorkStateCollector),
    ]
}

/// All available collectors, in registration order.
pub fn default_collectors() -> (r: Vec<CollectorKind>)
    ensures
        r@ == default_registry(),
{
    let mut v: Vec<CollectorKind> = Vec::new();
    v.push(CollectorKind::Build(BuildCollector));
    v.push(CollectorKind::Container(ContainerCollector));
    v.push(CollectorKind::Git(GitCollector));
    v.push(CollectorKind::History(HistoryCollector));
    v.push(CollectorKind::Adb(AdbCollector));
    v.push(CollectorKind::WorkState(WorkStateCollector));
    assert(v@ =~= default_registry());
    v
}

/// The snapshot a run starts from: empty but for the project name, the
/// project type and the hint taken straight from the configuration.
pub open spec fn seeded_context(config: &Config) -> ContextV {
    ContextV {
        project_name: match config.project {
            Some(p) => match p.name {
                Some(n) => n@,
                None => Seq::<char>::empty(),
            },
            None => Seq::<char>::empty(),
        },
        project_type: match config.project {
            Some(p) => match p.project_type {
                Some(t) => t@,
                None => Seq::<char>::empty(),
            },
            None => Seq::<char>::empty(),
        },
        hints: match config.hints {
            Some(h) => match h.default {
                Some(d) => d@,
                None => Seq::<char>::empty(),
            },
            None => Seq::<char>::empty(),
        },
        ..empty_context_v()
    }
}

/// The snapshot after the enabled collectors of `cs` have each run once,
/// in order, starting from `ctx`.
pub open spec fn run_collectors(
    cs: Seq<CollectorKind>,
    config: &Config,
    raw: &RawInputs,
    ctx: ContextV,
) -> ContextV
    decreases cs.len(),
{
    if cs.len() == 0 {
        ctx
    } else {
        let prev = run_collectors(cs.drop_last(), config, raw, ctx);
        if cs.last().spec_enabled(config) {
            cs.last().spec_collect(config, raw, prev)
        } else {
            prev
        }
    }
}

fn seed_context(config: &Config) -> (r: Context)
    ensures
        r@ == seeded_context(config),
{
    let mut ctx = Context::new_empty();
    match &config.project {
        Some(p) => {
            match &p.name {
                Some(n) => {
                    ctx.project_name = n.clone();
                },
                None => {},
            }
            match &p.project_type {
                Some(t) => {
                    ctx.project_type = t.clone();
                },
                None => {},
            }
        },
        None => {},
    }
    match &config.hints {
        Some(h) => match &h.default {
            Some(d) => {
                ctx.hints = d.clone();
            },
            None => {},
        },
        None => {},
    }
    ctx
}

/// Run a custom collector list against a fresh snapshot.
pub fn collect_context_with(config: &Config, raw: &RawInputs, collectors: &Vec<
    CollectorKind,
>) -> (r: Context)
    ensures
        r@ == run_collectors(collectors@, config, raw, seeded_context(config)),
{
    let mut ctx = seed_context(config);
    let mut i: usize = 0;
    proof {
        assert(collectors@.take(0) =~= Seq::<CollectorKind>::empty());
    }
    while i < collectors.len()
        invariant
            0 <= i <= collectors@.len(),
            ctx@ == run_collectors(collectors@.take(i as int), config, raw, seeded_context(
                config,
            )),
        decreases collectors@.len() - i,
    {
        let c = &collectors[i];
        if c.is_enabled(config) {
            c.collect(config, raw, &mut ctx);
        }
        proof {
            assert(collectors@.take(i + 1).drop_last() =~= collectors@.take(i as int));
            assert(collectors@.take(i + 1).last() == collectors@[i as int]);
        }
        i = i + 1;
    }
    assert(collectors@.take(i as int) =~= collectors@);
    ctx
}

/// Run the full pipeline: every enabled collector of the default
/// registry, in order, against a snapshot seeded from the configuration.
pub fn collect_context(config: &Config, raw: &RawInputs) -> (r: Context)
    ensures
        r@ == run_collectors(default_registry(), config, raw, seeded_context(config)),
{
    let collectors = default_collectors();
    collect_context_with(config, raw, &collectors)
}

} // verus!
