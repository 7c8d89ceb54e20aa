//! The uniform capability every adapter is wrapped in.

use vstd::prelude::*;
use crate::config::Config;
use crate::context::{Context, ContextV};
use crate::raw::RawInputs;

verus! {

/// A collector gathers one category of context: it has a name, an
/// enablement rule over the configuration, and a collect step that
/// replaces its own fields of the shared snapshot.  The three spec
/// functions pin each implementation's behaviour exactly.
pub trait Collector {
    /// The collector's name.
    spec fn spec_name(&self) -> Seq<char>;

    /// Whether the collector runs under this configuration.
    spec fn spec_enabled(&self, config: &Config) -> bool;

    /// The snapshot the collect step leaves behind, given the one it
    /// found.
    spec fn spec_collect(&self, config: &Config, raw: &RawInputs, ctx: ContextV) -> ContextV;

    /// The collector's name, for the registry and its tests.
    fn name(&self) -> (r: &'static str)
        ensures
            r@ == self.spec_name(),
    ;

    /// Decide whether this collector runs.
    fn is_enabled(&self, config: &Config) -> (r: bool)
        ensures
            r == self.spec_enabled(config),
    ;

    /// Update the snapshot from this collector's raw inputs.
    fn collect(&self, config: &Config, raw: &RawInputs, ctx: &mut Context)
        ensures
            final(ctx)@ == self.spec_collect(config, raw, old(ctx)@),
    ;
}

} // verus!
