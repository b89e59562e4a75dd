//! The JSON formatter: every JSON file is in its pretty-printed form.

use crate::changelog::ChangelogView;
use crate::hooks::{
    run_files, untouched, ContentView, FileContent, FileOutcome, HookReport, OutcomeView,
    SourceFile, SourceView,
};
use crate::text::{joined, text_eq};
use crate::RunContext;
use vstd::prelude::*;

verus! {

broadcast use vstd::string::group_string_axioms;

/// Trusted declaration of `serde_json::Value`, a parsed JSON document. The
/// library carries such values and never looks inside them.
#[verifier::external_type_specification]
#[verifier::external_body]
pub struct ExValue(serde_json::Value);

/// Trusted declaration of `serde_json::Error`.
#[verifier::external_type_specification]
#[verifier::external_body]
pub struct ExJsonError(serde_json::Error);

/// The pretty-printed form of the document that a text holds: what
/// `serde_json::to_string_pretty` writes of the value that
/// `serde_json::from_str` reads from the text. `None` where the text is no
/// JSON document.
pub uninterp spec fn json_formatted(text: Seq<char>) -> Option<Seq<char>>;

/// The pretty-printed form of the document that a value holds, as
/// `serde_json::to_string_pretty` writes it.
pub uninterp spec fn json_pretty(value: serde_json::Value) -> Seq<char>;

/// Whether the text is a JSON document.
pub open spec fn json_valid(text: Seq<char>) -> bool {
    json_formatted(text) is Some
}

/// Trusted: `serde_json::from_str` into a `serde_json::Value`. The parser
/// reads the text alone and either yields the value of the document or
/// reports an error. The contract names the outcome through the pretty
/// form of the value, [`json_formatted`], and says nothing of which texts
/// are documents.
#[verifier::external_body]
fn json_parse(text: &str) -> (r: Result<serde_json::Value, serde_json::Error>)
    ensures
        r matches Ok(value) ==> json_formatted(text@) == Some(json_pretty(value)),
        r is Err ==> json_formatted(text@) is None,
{
    serde_json::from_str::<serde_json::Value>(text)
}

/// Trusted: `serde_json::to_string_pretty` of a `serde_json::Value`. What
/// it writes depends on the value alone; the contract names it
/// [`json_pretty`]. It always succeeds: it writes into a byte vector, which
/// takes every write, and the serializer of a `Value` has no failing arm
/// (its map keys are strings, and a number that is not finite is written
/// as `null`).
#[verifier::external_body]
fn json_render(value: &serde_json::Value) -> (r: Result<String, serde_json::Error>)
    ensures
        r is Ok,
        r matches Ok(text) ==> text@ == json_pretty(*value),
{
    serde_json::to_string_pretty(value)
}

/// The error of the JSON writer, which the signatures carry and which
/// never arises for a document that was read.
#[derive(Debug, Clone, Copy, PartialEq, Eq, Structural)]
pub enum FormatError {
    /// The document was read but could not be written.
    Unwritable,
}

/// What the formatter decides about a JSON file whose pretty-printed form
/// is `pretty`, and the aggregate it leaves. The file is in form where its
/// content is that form followed by a line feed. Else it is reported; an
/// enforcing run also hands the formatted content back and records the file
/// as modified.
pub open spec fn settled(
    dry_run: bool,
    log: ChangelogView,
    path: Seq<char>,
    content: Seq<char>,
    pretty: Seq<char>,
) -> (OutcomeView, ChangelogView) {
    let id = "pretty-format-json"@;
    let formatted = pretty + "\n"@;
    if formatted == content {
        (untouched(), log)
    } else if dry_run {
        (
            OutcomeView { changed: true, rewrite: None },
            log.with_change(id, "Would format JSON in "@ + path),
        )
    } else {
        (
            OutcomeView { changed: true, rewrite: Some(formatted) },
            log.with_change(id, "Formatted JSON in "@ + path).with_modified(id, path),
        )
    }
}

/// Decides about a JSON file, given its pretty-printed form.
pub fn settle(ctx: &mut RunContext, path: &str, content: &str, pretty: &str) -> (out: FileOutcome)
    ensures
        final(ctx).dry_run == old(ctx).dry_run,
        final(ctx).debug == old(ctx).debug,
        (out@, final(ctx).changelog@) == settled(
            old(ctx).dry_run,
            old(ctx).changelog@,
            path@,
            content@,
            pretty@,
        ),
{
    let id = "pretty-format-json";
    let formatted = joined(pretty, "\n");
    if text_eq(formatted.as_str(), content) {
        FileOutcome { changed: false, rewrite: None }
    } else if ctx.dry_run {
        let message = joined("Would format JSON in ", path);
        ctx.changelog.record_change(id, message.as_str());
        FileOutcome { changed: true, rewrite: None }
    } else {
        let message = joined("Formatted JSON in ", path);
        ctx.changelog.record_change(id, message.as_str());
        ctx.changelog.record_file_modified(id, path);
        FileOutcome { changed: true, rewrite: Some(formatted) }
    }
}

/// What the formatter decides about one file, and the aggregate it leaves.
/// The file is recorded as examined. A file that is no text is reported and
/// skipped; a text that is no JSON document is left alone; a JSON document
/// is settled by its pretty-printed form.
pub open spec fn decided(dry_run: bool, log: ChangelogView, file: SourceView) -> (
    OutcomeView,
    ChangelogView,
) {
    let id = "pretty-format-json"@;
    let seen = log.with_checked(id, file.path);
    match file.content {
        ContentView::NotText => (
            untouched(),
            seen.with_change(id, "Skipped non-UTF8 file: "@ + file.path),
        ),
        ContentView::Text(content) => match json_formatted(content) {
            Some(pretty) => settled(dry_run, seen, file.path, content, pretty),
            None => (untouched(), seen),
        },
    }
}

/// A dry run rewrites nothing.
pub proof fn lemma_dry_run_rewrites_nothing(log: ChangelogView, file: SourceView)
    ensures
        decided(true, log, file).0.rewrite is None,
{
}

/// Decides about one file. The formatter always comes to a decision: a
/// document that was read can be written.
pub fn format_file_with_ctx(ctx: &mut RunContext, file: &SourceFile) -> (r: Result<
    FileOutcome,
    FormatError,
>)
    ensures
        final(ctx).dry_run == old(ctx).dry_run,
        final(ctx).debug == old(ctx).debug,
        r matches Ok(out) && (out@, final(ctx).changelog@) == decided(
            old(ctx).dry_run,
            old(ctx).changelog@,
            file@,
        ),
{
    let id = "pretty-format-json";
    let path = file.path.as_str();
    ctx.changelog.record_file_checked(id, path);
    match &file.content {
        FileContent::NotText => {
            let message = joined("Skipped non-UTF8 file: ", path);
            ctx.changelog.record_change(id, message.as_str());
            Ok(FileOutcome { changed: false, rewrite: None })
        },
        FileContent::Text(content) => {
            match json_parse(content.as_str()) {
                Err(_) => Ok(FileOutcome { changed: false, rewrite: None }),
                Ok(value) => match json_render(&value) {
                    Err(_) => Err(FormatError::Unwritable),
                    Ok(pretty) => Ok(settle(ctx, path, content.as_str(), pretty.as_str())),
                },
            }
        },
    }
}

/// The decision about one file, as a function.
pub open spec fn step() -> spec_fn(bool, ChangelogView, SourceView) -> (
    OutcomeView,
    ChangelogView,
) {
    |dry_run: bool, log: ChangelogView, file: SourceView| decided(dry_run, log, file)
}

/// Runs the formatter on the files, in order.
pub fn run_with_ctx(ctx: &mut RunContext, files: &Vec<SourceFile>) -> (r: Result<
    HookReport,
    FormatError,
>)
    ensures
        final(ctx).dry_run == old(ctx).dry_run,
        final(ctx).debug == old(ctx).debug,
        r matches Ok(report) && (report@, final(ctx).changelog@) == run_files(
            step(),
            old(ctx).dry_run,
            old(ctx).changelog@,
            files.deep_view(),
        ),
{
    let ghost all = files.deep_view();
    let mut report = HookReport::new();
    let mut i: usize = 0;
    proof {
        assert(all.take(0) =~= Seq::<SourceView>::empty());
    }
    while i < files.len()
        invariant
            i <= files@.len(),
            all == files.deep_view(),
            ctx.dry_run == old(ctx).dry_run,
            ctx.debug == old(ctx).debug,
            (report@, ctx.changelog@) == run_files(
                step(),
                old(ctx).dry_run,
                old(ctx).changelog@,
                all.take(i as int),
            ),
        decreases files@.len() - i,
    {
        let outcome = match format_file_with_ctx(ctx, &files[i]) {
            Ok(outcome) => outcome,
            Err(e) => {
                return Err(e);
            },
        };
        report.absorb(ctx.dry_run, files[i].path.as_str(), outcome);
        proof {
            assert(all.take(i + 1).drop_last() =~= all.take(i as int));
            assert(all.take(i + 1).last() == files@[i as int]@);
        }
        i = i + 1;
    }
    proof {
        assert(all.take(i as int) =~= all);
    }
    Ok(report)
}

/// Runs the formatter on the files in an enforcing run of its own, whose
/// aggregate is dropped.
pub fn run(files: &Vec<SourceFile>) -> (r: Result<HookReport, FormatError>)
    ensures
        r matches Ok(report) && report@ == run_files(
            step(),
            false,
            ChangelogView { entries: Seq::empty(), has_changes: false },
            files.deep_view(),
        ).0,
{
    let mut ctx = RunContext::default();
    run_with_ctx(&mut ctx, files)
}

} // verus!
