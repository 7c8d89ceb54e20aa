//! Configuration values the pipeline consumes.
//!
//! The library never reads a configuration file itself: the hosting binary
//! parses whatever file format it uses and hands over this already-typed
//! value.  Every section and every field is optional; each consumer states
//! its own default.

use vstd::prelude::*;

verus! {

/// Project identification.
#[derive(Debug, Clone)]
pub struct ProjectConfig {
    pub name: Option<String>,
    pub project_type: Option<String>,
}

/// Where build scripts and their per-target configuration files live.
#[derive(Debug, Clone)]
pub struct ScriptsConfig {
    pub entry_point: Option<String>,
    pub config_dir: Option<String>,
    pub config_pattern: Option<String>,
    pub extract_vars: Option<Vec<String>>,
}

/// Container runtime selection.
#[derive(Debug, Clone)]
pub struct ContainersConfig {
    pub runtime: Option<String>,
}

/// Free-text hint shown at every level.
#[derive(Debug, Clone)]
pub struct HintsConfig {
    pub default: Option<String>,
}

/// Command-history collection settings.
#[derive(Debug, Clone)]
pub struct HistoryConfig {
    pub enabled: Option<bool>,
    pub log_file: Option<String>,
    pub patterns: Option<Vec<String>>,
    pub max_entries: Option<usize>,
}

/// Repository discovery settings.
#[derive(Debug, Clone)]
pub struct GitConfig {
    /// Explicit list of repository paths to check, relative to the project
    /// root.
    pub paths: Option<Vec<String>>,
    /// Scan subdirectories for repositories when no explicit list is given.
    pub auto_detect: Option<bool>,
    /// Maximum scan depth for auto-detection.
    pub scan_depth: Option<usize>,
}

/// Device-bridge collection settings.
#[derive(Debug, Clone)]
pub struct AdbConfig {
    pub enabled: Option<bool>,
}

/// The whole configuration: one optional section per concern.
#[derive(Debug, Clone)]
pub struct Config {
    pub project: Option<ProjectConfig>,
    pub scripts: Option<ScriptsConfig>,
    pub containers: Option<ContainersConfig>,
    pub hints: Option<HintsConfig>,
    pub history: Option<HistoryConfig>,
    pub git: Option<GitConfig>,
    pub adb: Option<AdbConfig>,
}

impl Default for Config {
    /// The configuration with every section absent.
    fn default() -> (r: Config)
        ensures
            r.project is None,
            r.scripts is None,
            r.containers is None,
            r.hints is None,
            r.history is None,
            r.git is None,
            r.adb is None,
    {
        Config {
            project: None,
            scripts: None,
            containers: None,
            hints: None,
            history: None,
            git: None,
            adb: None,
        }
    }
}

} // verus!
