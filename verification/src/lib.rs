//! A configuration-driven pre-commit hook runner, as a verified library.
//!
//! The library holds the hook model, the file-selection rules, the plans by
//! which external tools are installed, the lock store and the per-run
//! dispatch decisions. Everything that touches the file system, a child
//! process or the clock is left to the caller, which hands plain values in
//! and carries the library's decisions out.

pub mod changelog;
pub mod config;
pub mod dispatch;
pub mod hooks;
pub mod install;
pub mod installer;
pub mod lock;
pub mod matcher;
pub mod text;
pub mod validate;

use crate::changelog::{Changelog, ChangelogView};
use vstd::prelude::*;

verus! {

/// What a hook is run with: the mode of the run and the aggregate that the
/// hooks of the run report to.
#[derive(Debug)]
pub struct RunContext {
    /// Report what would change; rewrite nothing and fail nothing.
    pub dry_run: bool,
    /// Whether the caller prints what it does.
    pub debug: bool,
    /// The aggregate of the run.
    pub changelog: Changelog,
}

impl Default for RunContext {
    /// An enforcing, quiet run with an empty aggregate.
    fn default() -> (r: Self)
        ensures
            !r.dry_run,
            !r.debug,
            r.changelog@ == (ChangelogView { entries: Seq::empty(), has_changes: false }),
    {
        RunContext { dry_run: false, debug: false, changelog: Changelog::new() }
    }
}

} // verus!
