//! What a user can configure.
//!
//! A configuration can add what is looked at and what is protected, and can
//! switch sources off. Nothing in it loosens what may be removed.

use crate::ecosystem::NonZeroCount;
use vstd::prelude::*;

verus! {

/// The most threads that a walk may be given.
pub const MAX_SCAN_CONCURRENCY: usize = 256;

/// How many seconds an advisor may take, unless told otherwise.
pub const DEFAULT_ADVISORY_TIMEOUT_SECONDS: u64 = 20;

/// How many seconds an advisor may take at most.
pub const MAX_ADVISORY_TIMEOUT_SECONDS: u64 = 120;

/// A user's configuration.
#[derive(Clone, Debug)]
pub struct Config {
    /// More protected paths, relative to the home.
    pub protect: Vec<String>,
    /// Project roots that are only read.
    pub roots: Vec<String>,
    /// The sources that are switched off.
    pub disable: Vec<String>,
    /// How many directories may be read at a time.
    pub max_concurrency: Option<NonZeroCount>,
    /// Whether a scan looks at shared memory and temporary files of the node.
    pub runtime: bool,
    /// The advisory pane.
    pub advisory: AdvisoryConfig,
}

impl Default for Config {
    fn default() -> (config: Self)
        ensures
            config.protect@.len() == 0,
            config.roots@.len() == 0,
            config.disable@.len() == 0,
            config.max_concurrency is None,
            !config.runtime,
            config.advisory == default_advisory(),
    {
        Config {
            protect: Vec::new(),
            roots: Vec::new(),
            disable: Vec::new(),
            max_concurrency: None,
            runtime: false,
            advisory: AdvisoryConfig::default(),
        }
    }
}

/// What is shown beside a finding. It is never part of one.
#[derive(Clone, Debug, PartialEq, Eq)]
pub struct AdvisoryConfig {
    /// Whether the pane is shown.
    pub enabled: bool,
    /// The program that is asked for advice. Without one nobody is asked.
    pub command: Option<String>,
    /// How many seconds it may take.
    pub timeout_seconds: u64,
}

/// The pane is shown, and nobody is asked.
pub open spec fn default_advisory() -> AdvisoryConfig {
    AdvisoryConfig {
        enabled: true,
        command: None,
        timeout_seconds: DEFAULT_ADVISORY_TIMEOUT_SECONDS,
    }
}

impl Default for AdvisoryConfig {
    fn default() -> (advisory: Self)
        ensures
            advisory == default_advisory(),
    {
        AdvisoryConfig {
            enabled: true,
            command: None,
            timeout_seconds: DEFAULT_ADVISORY_TIMEOUT_SECONDS,
        }
    }
}

} // verus!
