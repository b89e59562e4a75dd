//! The rules by which a hook implementation is held to the hook contract.
//!
//! Validation probes a hook with files of known content, once in a dry run
//! and once in an enforcing run. The caller writes the files and runs the
//! hook; the library says what to write and judges what came of it.

use crate::text::text_eq;
use vstd::prelude::*;

verus! {

broadcast use vstd::string::group_string_axioms;

/// Whether the hook of this name only checks files and never rewrites
/// them.
pub open spec fn is_validator(hook_name: Seq<char>) -> bool {
    hook_name == "check-yaml"@ || hook_name == "check-added-large-files"@
}

/// Identifies a hook that only checks files and never rewrites them.
pub fn is_validator_hook(hook_name: &str) -> (r: bool)
    ensures
        r == is_validator(hook_name@),
{
    text_eq(hook_name, "check-yaml") || text_eq(hook_name, "check-added-large-files")
}

/// How a hook fell short of the contract.
#[derive(Debug, Clone, Copy, PartialEq, Eq, Structural)]
pub enum ValidateError {
    /// A fixer changed a file in a dry run.
    ModifiedInDryRun,
    /// The hook met a file that it must object to and signalled nothing.
    NoFailureSignalled,
}

/// What a probe file holds.
#[derive(Debug)]
pub enum ProbeContent {
    /// The text.
    Text(String),
    /// The given number of bytes, each the given byte.
    Filled(u8, usize),
}

/// A file to probe a hook with.
#[derive(Debug)]
pub struct Probe {
    /// The name of the file, inside a directory of the caller's choice.
    pub name: String,
    pub content: ProbeContent,
}

/// The mathematical content of a [`Probe`].
pub enum ProbeView {
    Text(Seq<char>, Seq<char>),
    Filled(Seq<char>, u8, usize),
}

impl View for Probe {
    type V = ProbeView;

    open spec fn view(&self) -> ProbeView {
        match self.content {
            ProbeContent::Text(text) => ProbeView::Text(self.name@, text@),
            ProbeContent::Filled(byte, len) => ProbeView::Filled(self.name@, byte, len),
        }
    }
}

/// The file that every hook is run on in a dry run.
pub fn dry_run_probe() -> (probe: Probe)
    ensures
        probe@ == ProbeView::Text("test.txt"@, "test content\n\n"@),
{
    Probe {
        name: String::from_str("test.txt"),
        content: ProbeContent::Text(String::from_str("test content\n\n")),
    }
}

/// The file that the hook of this name must object to: broken YAML for the
/// YAML check, a megabyte of data for the large-file check, and text
/// without a line feed at its end for every other hook.
pub open spec fn objectionable(hook_name: Seq<char>) -> ProbeView {
    if hook_name == "check-yaml"@ {
        ProbeView::Text("invalid.yaml"@, "invalid: [yaml: }"@)
    } else if hook_name == "check-added-large-files"@ {
        ProbeView::Filled("large.txt"@, 120, 1000000)
    } else {
        ProbeView::Text("needs-fixing.txt"@, "test content"@)
    }
}

/// The file that the hook must object to in an enforcing run.
pub fn failing_probe(hook_name: &str) -> (probe: Probe)
    ensures
        probe@ == objectionable(hook_name@),
{
    if text_eq(hook_name, "check-yaml") {
        Probe {
            name: String::from_str("invalid.yaml"),
            content: ProbeContent::Text(String::from_str("invalid: [yaml: }")),
        }
    } else if text_eq(hook_name, "check-added-large-files") {
        Probe { name: String::from_str("large.txt"), content: ProbeContent::Filled(120, 1000000) }
    } else {
        Probe {
            name: String::from_str("needs-fixing.txt"),
            content: ProbeContent::Text(String::from_str("test content")),
        }
    }
}

/// Judges a dry run: a fixer must leave the file as it was. `before` and
/// `after` are the content of the probe file before and after the run.
pub fn check_dry_run(hook_name: &str, before: &str, after: &str) -> (r: Result<(), ValidateError>)
    ensures
        r == if !is_validator(hook_name@) && before@ != after@ {
            Err::<(), ValidateError>(ValidateError::ModifiedInDryRun)
        } else {
            Ok::<(), ValidateError>(())
        },
{
    if !is_validator_hook(hook_name) && !text_eq(before, after) {
        Err(ValidateError::ModifiedInDryRun)
    } else {
        Ok(())
    }
}

/// Judges an enforcing run on the file that the hook must object to:
/// `failed` says whether the hook signalled a failure.
pub fn check_enforcing(failed: bool) -> (r: Result<(), ValidateError>)
    ensures
        r == if failed {
            Ok::<(), ValidateError>(())
        } else {
            Err::<(), ValidateError>(ValidateError::NoFailureSignalled)
        },
{
    if failed {
        Ok(())
    } else {
        Err(ValidateError::NoFailureSignalled)
    }
}

/// Judges a hook by the two probes: the dry run first, then the enforcing
/// run.
pub fn validate_hook(hook_name: &str, before: &str, after: &str, failed: bool) -> (r: Result<
    (),
    ValidateError,
>)
    ensures
        r == if !is_validator(hook_name@) && before@ != after@ {
            Err::<(), ValidateError>(ValidateError::ModifiedInDryRun)
        } else if !failed {
            Err::<(), ValidateError>(ValidateError::NoFailureSignalled)
        } else {
            Ok::<(), ValidateError>(())
        },
{
    match check_dry_run(hook_name, before, after) {
        Err(e) => Err(e),
        Ok(()) => check_enforcing(failed),
    }
}

} // verus!
