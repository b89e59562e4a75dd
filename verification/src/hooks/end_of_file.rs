//! The end-of-file fixer: a text file ends with exactly one line feed.

use crate::changelog::ChangelogView;
use crate::hooks::{
    run_files, untouched, ContentView, FileContent, FileOutcome, HookReport, OutcomeView,
    SourceFile, SourceView,
};
use crate::text::{
    append_chars, chars_of, joined, in_class, lemma_runs_bounded, same_chars, string_of,
    strip_end, trailing_len, trailing_run, CharClass,
};
use crate::RunContext;
use vstd::prelude::*;

verus! {

broadcast use vstd::string::group_string_axioms;

/// The content with the line breaks at its end replaced by one line feed.
pub open spec fn normalized(content: Seq<char>) -> Seq<char> {
    strip_end(content, CharClass::LineBreak) + seq!['\n']
}

/// Normalized content ends with a line feed, and with one line break only.
pub proof fn lemma_normalized_ends_once(content: Seq<char>)
    ensures
        normalized(content).len() >= 1,
        normalized(content).last() == '\n',
        trailing_run(normalized(content), CharClass::LineBreak) == 1,
        normalized(normalized(content)) == normalized(content),
{
    let body = strip_end(content, CharClass::LineBreak);
    let out = normalized(content);
    lemma_runs_bounded(content, CharClass::LineBreak);
    lemma_body_ends_clean(content);
    assert(out.drop_last() =~= body);
    assert(trailing_run(out, CharClass::LineBreak) == 1);
    assert(out.take(out.len() - 1) =~= body);
}

/// What is left when the line breaks at the end are stripped ends with
/// none.
proof fn lemma_body_ends_clean(content: Seq<char>)
    ensures
        trailing_run(strip_end(content, CharClass::LineBreak), CharClass::LineBreak) == 0,
    decreases content.len(),
{
    lemma_runs_bounded(content, CharClass::LineBreak);
    if content.len() > 0 && in_class(CharClass::LineBreak, content.last()) {
        let rest = content.drop_last();
        lemma_body_ends_clean(rest);
        lemma_runs_bounded(rest, CharClass::LineBreak);
        assert(strip_end(content, CharClass::LineBreak) =~= strip_end(rest, CharClass::LineBreak));
    } else {
        assert(strip_end(content, CharClass::LineBreak) =~= content);
    }
}

/// What the fixer decides about one file, and the aggregate it leaves. The
/// file is recorded as examined. A file that is no text is reported and
/// skipped. A text file that is not normalized is reported; an enforcing
/// run also hands its normalized content back and records it as modified.
pub open spec fn decided(dry_run: bool, log: ChangelogView, file: SourceView) -> (
    OutcomeView,
    ChangelogView,
) {
    let id = "end-of-file-fixer"@;
    let seen = log.with_checked(id, file.path);
    match file.content {
        ContentView::NotText => (
            untouched(),
            seen.with_change(id, "Skipped non-UTF8 file: "@ + file.path),
        ),
        ContentView::Text(content) => if normalized(content) == content {
            (untouched(), seen)
        } else if dry_run {
            (
                OutcomeView { changed: true, rewrite: None },
                seen.with_change(id, "Would normalize newlines at end of "@ + file.path),
            )
        } else {
            (
                OutcomeView { changed: true, rewrite: Some(normalized(content)) },
                seen.with_change(id, "Normalized newlines at end of "@ + file.path).with_modified(
                    id,
                    file.path,
                ),
            )
        },
    }
}

/// A dry run rewrites nothing.
pub proof fn lemma_dry_run_rewrites_nothing(log: ChangelogView, file: SourceView)
    ensures
        decided(true, log, file).0.rewrite is None,
{
}

/// Decides about one file.
pub fn fix_file_with_ctx(ctx: &mut RunContext, file: &SourceFile) -> (out: FileOutcome)
    ensures
        final(ctx).dry_run == old(ctx).dry_run,
        final(ctx).debug == old(ctx).debug,
        (out@, final(ctx).changelog@) == decided(old(ctx).dry_run, old(ctx).changelog@, file@),
{
    let id = "end-of-file-fixer";
    let path = file.path.as_str();
    ctx.changelog.record_file_checked(id, path);
    match &file.content {
        FileContent::NotText => {
            let message = joined("Skipped non-UTF8 file: ", path);
            ctx.changelog.record_change(id, message.as_str());
            FileOutcome { changed: false, rewrite: None }
        },
        FileContent::Text(content) => {
            let chars = chars_of(content.as_str());
            let n = chars.len();
            let run = trailing_len(chars.as_slice(), n, CharClass::LineBreak);
            let mut fixed: Vec<char> = Vec::new();
            append_chars(&mut fixed, chars.as_slice(), 0, n - run);
            fixed.push('\n');
            proof {
                assert(chars@.take(n as int) =~= chars@);
                assert(fixed@ =~= normalized(content@));
            }
            if same_chars(fixed.as_slice(), chars.as_slice()) {
                FileOutcome { changed: false, rewrite: None }
            } else if ctx.dry_run {
                let message = joined("Would normalize newlines at end of ", path);
                ctx.changelog.record_change(id, message.as_str());
                FileOutcome { changed: true, rewrite: None }
            } else {
                let message = joined("Normalized newlines at end of ", path);
                ctx.changelog.record_change(id, message.as_str());
                ctx.changelog.record_file_modified(id, path);
                FileOutcome { changed: true, rewrite: Some(string_of(fixed.as_slice())) }
            }
        },
    }
}

/// The decision about one file, as a function.
pub open spec fn step() -> spec_fn(bool, ChangelogView, SourceView) -> (
    OutcomeView,
    ChangelogView,
) {
    |dry_run: bool, log: ChangelogView, file: SourceView| decided(dry_run, log, file)
}

/// Runs the fixer on the files, in order.
pub fn run_with_ctx(ctx: &mut RunContext, files: &Vec<SourceFile>) -> (report: HookReport)
    ensures
        final(ctx).dry_run == old(ctx).dry_run,
        final(ctx).debug == old(ctx).debug,
        (report@, final(ctx).changelog@) == run_files(
            step(),
            old(ctx).dry_run,
            old(ctx).changelog@,
            files.deep_view(),
        ),
{
    let ghost all = files.deep_view();
    let mut report = HookReport::new();
    let mut i: usize = 0;
    proof {
        assert(all.take(0) =~= Seq::<SourceView>::empty());
    }
    while i < files.len()
        invariant
            i <= files@.len(),
            all == files.deep_view(),
            ctx.dry_run == old(ctx).dry_run,
            ctx.debug == old(ctx).debug,
            (report@, ctx.changelog@) == run_files(
                step(),
                old(ctx).dry_run,
                old(ctx).changelog@,
                all.take(i as int),
            ),
        decreases files@.len() - i,
    {
        let outcome = fix_file_with_ctx(ctx, &files[i]);
        report.absorb(ctx.dry_run, files[i].path.as_str(), outcome);
        proof {
            assert(all.take(i + 1).drop_last() =~= all.take(i as int));
            assert(all.take(i + 1).last() == files@[i as int]@);
        }
        i = i + 1;
    }
    proof {
        assert(all.take(i as int) =~= all);
    }
    report
}

/// Runs the fixer on the files in an enforcing run of its own, whose
/// aggregate is dropped.
pub fn run(files: &Vec<SourceFile>) -> (report: HookReport)
    ensures
        report@ == run_files(
            step(),
            false,
            ChangelogView { entries: Seq::empty(), has_changes: false },
            files.deep_view(),
        ).0,
{
    let mut ctx = RunContext::default();
    run_with_ctx(&mut ctx, files)
}

} // verus!
