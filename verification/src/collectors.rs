//! The collectors: one adapter per external signal, a uniform capability
//! each adapter is wrapped in, and the registry that runs enabled
//! collectors in a fixed order against a shared snapshot.

pub mod adb;
pub mod build_targets;
pub mod container;
pub mod git;
pub mod history;
pub mod registry;
pub mod traits;
pub mod workstate;

pub use adb::AdbCollector;
pub use build_targets::BuildCollector;
pub use container::ContainerCollector;
pub use git::GitCollector;
pub use history::HistoryCollector;
pub use registry::{CollectorKind, collect_context, collect_context_with, default_collectors};
pub use traits::Collector;
pub use workstate::{WorkStateCollector, load_work_state_with_hooks, merge_work_state};
