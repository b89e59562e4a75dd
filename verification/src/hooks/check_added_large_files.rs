//! The large-file check: no file exceeds the size limit.

use crate::changelog::ChangelogView;
use crate::hooks::exit_status;
use crate::text::{decimal_of, decimal_text};
use crate::RunContext;
use vstd::prelude::*;

verus! {

broadcast use vstd::string::group_string_axioms;

/// The limit that applies where none is given: 500 kB.
pub const DEFAULT_LIMIT: u64 = 500000;

/// The limit of a run.
pub open spec fn limit_of(max_bytes: Option<u64>) -> u64 {
    match max_bytes {
        Some(limit) => limit,
        None => DEFAULT_LIMIT,
    }
}

/// A file and its size in bytes, as the caller measured it.
#[derive(Debug)]
pub struct SizedFile {
    pub path: String,
    pub size: u64,
}

/// The mathematical content of a [`SizedFile`].
pub struct SizedView {
    pub path: Seq<char>,
    pub size: u64,
}

impl View for SizedFile {
    type V = SizedView;

    open spec fn view(&self) -> SizedView {
        SizedView { path: self.path@, size: self.size }
    }
}

impl DeepView for SizedFile {
    type V = SizedView;

    open spec fn deep_view(&self) -> SizedView {
        self@
    }
}

/// What is reported of a file that is too large.
pub open spec fn complaint(file: SizedView, limit: u64) -> Seq<char> {
    "File "@ + file.path + " is too large ("@ + decimal_of(file.size as nat) + " bytes) > "@
        + decimal_of(limit as nat) + " bytes"@
}

/// What the check decides about one file, and the aggregate it leaves. The
/// file is recorded as examined; a file above the limit is a violation and
/// is reported.
pub open spec fn decided(log: ChangelogView, file: SizedView, limit: u64) -> (bool, ChangelogView) {
    let id = "check-added-large-files"@;
    let seen = log.with_checked(id, file.path);
    if file.size > limit {
        (true, seen.with_change(id, complaint(file, limit)))
    } else {
        (false, seen)
    }
}

/// Decides about one file.
pub fn check_file(ctx: &mut RunContext, file: &SizedFile, limit: u64) -> (too_large: bool)
    ensures
        final(ctx).dry_run == old(ctx).dry_run,
        final(ctx).debug == old(ctx).debug,
        (too_large, final(ctx).changelog@) == decided(old(ctx).changelog@, file@, limit),
{
    let id = "check-added-large-files";
    ctx.changelog.record_file_checked(id, file.path.as_str());
    if file.size > limit {
        let mut message = String::from_str("File ");
        message.append(file.path.as_str());
        message.append(" is too large (");
        message.append(decimal_text(file.size).as_str());
        message.append(" bytes) > ");
        message.append(decimal_text(limit).as_str());
        message.append(" bytes");
        ctx.changelog.record_change(id, message.as_str());
        true
    } else {
        false
    }
}

/// Whether a file is too large, and the aggregate that the check leaves,
/// the files decided in order.
pub open spec fn checked(log: ChangelogView, files: Seq<SizedView>, limit: u64) -> (
    bool,
    ChangelogView,
)
    decreases files.len(),
{
    if files.len() == 0 {
        (false, log)
    } else {
        let before = checked(log, files.drop_last(), limit);
        let last = decided(before.1, files.last(), limit);
        (before.0 || last.0, last.1)
    }
}

/// The check finds a violation exactly where a file exceeds the limit.
pub proof fn lemma_checked_finds_large_files(log: ChangelogView, files: Seq<SizedView>, limit: u64)
    ensures
        checked(log, files, limit).0 <==> exists|i: int|
            0 <= i < files.len() && (#[trigger] files[i]).size > limit,
    decreases files.len(),
{
    if files.len() > 0 {
        let rest = files.drop_last();
        lemma_checked_finds_large_files(log, rest, limit);
        if checked(log, files, limit).0 {
            if checked(log, rest, limit).0 {
                let i = choose|i: int| 0 <= i < rest.len() && (#[trigger] rest[i]).size > limit;
                assert(files[i].size > limit);
            } else {
                assert(files[files.len() - 1].size > limit);
            }
        }
        if exists|i: int| 0 <= i < files.len() && (#[trigger] files[i]).size > limit {
            let i = choose|i: int| 0 <= i < files.len() && (#[trigger] files[i]).size > limit;
            if i < rest.len() {
                assert(rest[i].size > limit);
            }
        }
    }
}

/// What the check found.
#[derive(Debug, Clone, Copy, PartialEq, Eq, Structural)]
pub struct SizeReport {
    /// Whether a file exceeds the limit.
    pub too_large: bool,
    /// The exit status that the check asks for.
    pub exit_code: u8,
}

/// Checks the sizes of the files against the limit.
pub fn run_with_ctx(ctx: &mut RunContext, max_bytes: Option<u64>, files: &Vec<SizedFile>) -> (report:
    SizeReport)
    ensures
        final(ctx).dry_run == old(ctx).dry_run,
        final(ctx).debug == old(ctx).debug,
        (report.too_large, final(ctx).changelog@) == checked(
            old(ctx).changelog@,
            files.deep_view(),
            limit_of(max_bytes),
        ),
        report.exit_code == exit_status(old(ctx).dry_run, report.too_large),
{
    let limit = match max_bytes {
        Some(limit) => limit,
        None => DEFAULT_LIMIT,
    };
    let ghost all = files.deep_view();
    let mut too_large = false;
    let mut i: usize = 0;
    proof {
        assert(all.take(0) =~= Seq::<SizedView>::empty());
    }
    while i < files.len()
        invariant
            i <= files@.len(),
            all == files.deep_view(),
            limit == limit_of(max_bytes),
            ctx.dry_run == old(ctx).dry_run,
            ctx.debug == old(ctx).debug,
            (too_large, ctx.changelog@) == checked(old(ctx).changelog@, all.take(i as int), limit),
        decreases files@.len() - i,
    {
        if check_file(ctx, &files[i], limit) {
            too_large = true;
        }
        proof {
            assert(all.take(i + 1).drop_last() =~= all.take(i as int));
            assert(all.take(i + 1).last() == files@[i as int]@);
        }
        i = i + 1;
    }
    proof {
        assert(all.take(i as int) =~= all);
    }
    SizeReport {
        too_large,
        exit_code: if too_large && !ctx.dry_run {
            1
        } else {
            0
        },
    }
}

/// Checks the sizes in an enforcing run of its own, whose aggregate is
/// dropped.
pub fn run(max_bytes: Option<u64>, files: &Vec<SizedFile>) -> (report: SizeReport)
    ensures
        report.too_large == checked(
            ChangelogView { entries: Seq::empty(), has_changes: false },
            files.deep_view(),
            limit_of(max_bytes),
        ).0,
        report.exit_code == exit_status(false, report.too_large),
{
    let mut ctx = RunContext::default();
    run_with_ctx(&mut ctx, max_bytes, files)
}

} // verus!
