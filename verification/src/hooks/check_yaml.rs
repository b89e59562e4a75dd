//! The YAML check: every text file parses as YAML.

use crate::changelog::ChangelogView;
use crate::hooks::{
    run_files, untouched, ContentView, FileContent, FileOutcome, HookReport, OutcomeView,
    SourceFile, SourceView,
};
use crate::text::joined;
use crate::RunContext;
use vstd::prelude::*;

verus! {

broadcast use vstd::string::group_string_axioms;

/// What is wrong with a text as YAML, in the words of the parser, or
/// `None` where the text parses.
pub uninterp spec fn yaml_problem(text: Seq<char>) -> Option<Seq<char>>;

/// Trusted: `serde_yaml::from_str` into a `serde_yaml::Value`. The parser
/// reads the text alone and either yields a value or reports an error; the
/// contract names the error message [`yaml_problem`] and says nothing of
/// which texts parse.
#[verifier::external_body]
fn yaml_check(text: &str) -> (problem: Option<String>)
    ensures
        problem.deep_view() == yaml_problem(text@),
{
    match serde_yaml::from_str::<serde_yaml::Value>(text) {
        Ok(_) => None,
        Err(error) => Some(error.to_string()),
    }
}

/// What the check decides about a text file once the parser has spoken,
/// and the aggregate it leaves: a problem is a violation and is reported.
pub open spec fn judged(log: ChangelogView, path: Seq<char>, problem: Option<Seq<char>>) -> (
    OutcomeView,
    ChangelogView,
) {
    match problem {
        None => (untouched(), log),
        Some(words) => (
            OutcomeView { changed: true, rewrite: None },
            log.with_change("check-yaml"@, "Invalid YAML in "@ + path + ": "@ + words),
        ),
    }
}

/// Decides about a text file, given what the parser said of it.
pub fn judge(ctx: &mut RunContext, path: &str, problem: Option<&str>) -> (out: FileOutcome)
    ensures
        final(ctx).dry_run == old(ctx).dry_run,
        final(ctx).debug == old(ctx).debug,
        (out@, final(ctx).changelog@) == judged(old(ctx).changelog@, path@, problem.deep_view()),
{
    match problem {
        None => FileOutcome { changed: false, rewrite: None },
        Some(words) => {
            let mut message = joined("Invalid YAML in ", path);
            message.append(": ");
            message.append(words);
            ctx.changelog.record_change("check-yaml", message.as_str());
            FileOutcome { changed: true, rewrite: None }
        },
    }
}

/// What the check decides about one file, and the aggregate it leaves. The
/// file is recorded as examined. A file that is no text is reported and
/// skipped; a text file is judged by what the parser says of it.
pub open spec fn decided(dry_run: bool, log: ChangelogView, file: SourceView) -> (
    OutcomeView,
    ChangelogView,
) {
    let id = "check-yaml"@;
    let seen = log.with_checked(id, file.path);
    match file.content {
        ContentView::NotText => (
            untouched(),
            seen.with_change(id, "Skipped non-UTF8 file: "@ + file.path),
        ),
        ContentView::Text(content) => judged(seen, file.path, yaml_problem(content)),
    }
}

/// Decides about one file.
pub fn check_file(ctx: &mut RunContext, file: &SourceFile) -> (out: FileOutcome)
    ensures
        final(ctx).dry_run == old(ctx).dry_run,
        final(ctx).debug == old(ctx).debug,
        (out@, final(ctx).changelog@) == decided(old(ctx).dry_run, old(ctx).changelog@, file@),
{
    let id = "check-yaml";
    let path = file.path.as_str();
    ctx.changelog.record_file_checked(id, path);
    match &file.content {
        FileContent::NotText => {
            let message = joined("Skipped non-UTF8 file: ", path);
            ctx.changelog.record_change(id, message.as_str());
            FileOutcome { changed: false, rewrite: None }
        },
        FileContent::Text(content) => {
            let problem = yaml_check(content.as_str());
            match &problem {
                Some(words) => judge(ctx, path, Some(words.as_str())),
                None => judge(ctx, path, None),
            }
        },
    }
}

/// The decision about one file, as a function.
pub open spec fn step() -> spec_fn(bool, ChangelogView, SourceView) -> (
    OutcomeView,
    ChangelogView,
) {
    |dry_run: bool, log: ChangelogView, file: SourceView| decided(dry_run, log, file)
}

/// Runs the check on the files, in order.
pub fn run_with_ctx(ctx: &mut RunContext, files: &Vec<SourceFile>) -> (report: HookReport)
    ensures
        final(ctx).dry_run == old(ctx).dry_run,
        final(ctx).debug == old(ctx).debug,
        (report@, final(ctx).changelog@) == run_files(
            step(),
            old(ctx).dry_run,
            old(ctx).changelog@,
            files.deep_view(),
        ),
{
    let ghost all = files.deep_view();
    let mut report = HookReport::new();
    let mut i: usize = 0;
    proof {
        assert(all.take(0) =~= Seq::<SourceView>::empty());
    }
    while i < files.len()
        invariant
            i <= files@.len(),
            all == files.deep_view(),
            ctx.dry_run == old(ctx).dry_run,
            ctx.debug == old(ctx).debug,
            (report@, ctx.changelog@) == run_files(
                step(),
                old(ctx).dry_run,
                old(ctx).changelog@,
                all.take(i as int),
            ),
        decreases files@.len() - i,
    {
        let outcome = check_file(ctx, &files[i]);
        report.absorb(ctx.dry_run, files[i].path.as_str(), outcome);
        proof {
            assert(all.take(i + 1).drop_last() =~= all.take(i as int));
            assert(all.take(i + 1).last() == files@[i as int]@);
        }
        i = i + 1;
    }
    proof {
        assert(all.take(i as int) =~= all);
    }
    report
}

/// Runs the check on the files in an enforcing run of its own, whose
/// aggregate is dropped.
pub fn run(files: &Vec<SourceFile>) -> (report: HookReport)
    ensures
        report@ == run_files(
            step(),
            false,
            ChangelogView { entries: Seq::empty(), has_changes: false },
            files.deep_view(),
        ).0,
{
    let mut ctx = RunContext::default();
    run_with_ctx(&mut ctx, files)
}

} // verus!
