//! The trailing-whitespace fixer: no line ends with a space or a tab.

use crate::changelog::ChangelogView;
use crate::hooks::{
    run_files, untouched, ContentView, FileContent, FileOutcome, HookReport, OutcomeView,
    SourceFile, SourceView,
};
use crate::text::{
    append_chars, chars_of, joined, find_char, first_index, lemma_first_index, string_of,
    strip_end, trailing_len, trailing_run, CharClass,
};
use crate::RunContext;
use vstd::prelude::*;
use vstd::slice::slice_subrange;

verus! {

broadcast use vstd::string::group_string_axioms;

/// The line without the carriage return at its end, if it has one.
pub open spec fn strip_cr(line: Seq<char>) -> Seq<char> {
    if line.len() > 0 && line.last() == '\r' {
        line.drop_last()
    } else {
        line
    }
}

/// The lines of a text. A line ends with a line feed, or with a carriage
/// return and a line feed, neither of which belongs to it; the last line
/// may lack the ending, and is then taken as it stands. Empty text has no
/// line.
pub open spec fn lines(s: Seq<char>) -> Seq<Seq<char>>
    decreases s.len(),
{
    if s.len() == 0 {
        Seq::empty()
    } else {
        let k = first_index(s, '\n');
        if 0 <= k < s.len() {
            seq![strip_cr(s.take(k))] + lines(s.skip(k + 1))
        } else {
            seq![s]
        }
    }
}

/// The lines, each without the blanks at its end and closed by a line
/// feed.
pub open spec fn cleaned(lines: Seq<Seq<char>>) -> Seq<char>
    decreases lines.len(),
{
    if lines.len() == 0 {
        Seq::empty()
    } else {
        cleaned(lines.drop_last()) + strip_end(lines.last(), CharClass::Blank) + seq!['\n']
    }
}

/// Whether a line ends with a blank.
pub open spec fn any_trailing(lines: Seq<Seq<char>>) -> bool {
    exists|i: int| 0 <= i < lines.len() && trailing_run(#[trigger] lines[i], CharClass::Blank) > 0
}

/// Whether a line ends with a blank, one more line at the end.
proof fn lemma_any_trailing_push(done: Seq<Seq<char>>, line: Seq<char>)
    ensures
        any_trailing(done.push(line)) == (any_trailing(done) || trailing_run(
            line,
            CharClass::Blank,
        ) > 0),
{
    let all = done.push(line);
    if any_trailing(done) {
        let i = choose|i: int|
            0 <= i < done.len() && trailing_run(#[trigger] done[i], CharClass::Blank) > 0;
        assert(all[i] == done[i]);
    }
    if trailing_run(line, CharClass::Blank) > 0 {
        assert(all[done.len() as int] == line);
    }
    if any_trailing(all) {
        let i = choose|i: int|
            0 <= i < all.len() && trailing_run(#[trigger] all[i], CharClass::Blank) > 0;
        if i < done.len() {
            assert(done[i] == all[i]);
        }
    }
}

/// The cleaned form of a text, and whether a line of it ended with a
/// blank.
pub fn clean(text: &str) -> (out: (String, bool))
    ensures
        out.0@ == cleaned(lines(text@)),
        out.1 == any_trailing(lines(text@)),
{
    let chars = chars_of(text);
    let v = chars.as_slice();
    let n = v.len();
    let mut fixed: Vec<char> = Vec::new();
    let mut found = false;
    let mut pos: usize = 0;
    let ghost mut done: Seq<Seq<char>> = Seq::empty();
    proof {
        assert(v@.skip(0) =~= v@);
        assert(done + lines(v@.skip(0)) =~= lines(v@));
    }
    while pos < n
        invariant
            pos <= n,
            n == v@.len(),
            v@ == text@,
            lines(v@) == done + lines(v@.skip(pos as int)),
            fixed@ == cleaned(done),
            found == any_trailing(done),
        decreases n - pos,
    {
        let ghost rest = v@.skip(pos as int);
        let k = find_char(v, pos, n, '\n');
        proof {
            assert(v@.subrange(pos as int, n as int) =~= rest);
            lemma_first_index(rest, '\n');
        }
        let end: usize = if k < n && k > pos && v[k - 1] == '\r' {
            k - 1
        } else {
            k
        };
        let next: usize = if k < n {
            k + 1
        } else {
            n
        };
        let piece = slice_subrange(v, pos, end);
        let run = trailing_len(piece, end - pos, CharClass::Blank);
        let ghost line = piece@;
        proof {
            assert(piece@.take((end - pos) as int) =~= piece@);
            if k < n {
                assert(rest.take(k - pos) =~= v@.subrange(pos as int, k as int));
                assert(rest.skip(k - pos + 1) =~= v@.skip(k + 1));
                if k > pos {
                    assert(v@.subrange(pos as int, k as int).last() == v@[k - 1]);
                }
                assert(strip_cr(v@.subrange(pos as int, k as int)) =~= line);
                assert(done + (seq![line] + lines(v@.skip(k + 1))) =~= done.push(line) + lines(
                    v@.skip(next as int),
                ));
            } else {
                assert(line =~= rest);
                assert(lines(v@.skip(n as int)) =~= Seq::<Seq<char>>::empty());
                assert(done + seq![rest] =~= done.push(line) + lines(v@.skip(next as int)));
            }
            lemma_any_trailing_push(done, line);
            assert(done.push(line).drop_last() =~= done);
        }
        let ghost before = fixed@;
        append_chars(&mut fixed, v, pos, end - run);
        fixed.push('\n');
        proof {
            assert(v@.subrange(pos as int, end - run) =~= strip_end(line, CharClass::Blank));
            assert(fixed@ =~= before + strip_end(line, CharClass::Blank) + seq!['\n']);
            done = done.push(line);
        }
        if run > 0 {
            found = true;
        }
        pos = next;
    }
    proof {
        assert(lines(v@.skip(n as int)) =~= Seq::<Seq<char>>::empty());
        assert(done + Seq::<Seq<char>>::empty() =~= done);
    }
    (string_of(fixed.as_slice()), found)
}

/// What the fixer decides about one file, and the aggregate it leaves. The
/// file is recorded as examined. A file that is no text is reported and
/// skipped. A text file with a line that ends with a blank is reported; an
/// enforcing run also hands its cleaned content back and records it as
/// modified.
pub open spec fn decided(dry_run: bool, log: ChangelogView, file: SourceView) -> (
    OutcomeView,
    ChangelogView,
) {
    let id = "trailing-whitespace"@;
    let seen = log.with_checked(id, file.path);
    match file.content {
        ContentView::NotText => (
            untouched(),
            seen.with_change(id, "Skipped non-UTF8 file: "@ + file.path),
        ),
        ContentView::Text(content) => if !any_trailing(lines(content)) {
            (untouched(), seen)
        } else if dry_run {
            (
                OutcomeView { changed: true, rewrite: None },
                seen.with_change(id, "Would remove trailing whitespace from "@ + file.path),
            )
        } else {
            (
                OutcomeView { changed: true, rewrite: Some(cleaned(lines(content))) },
                seen.with_change(
                    id,
                    "Removed trailing whitespace from "@ + file.path,
                ).with_modified(id, file.path),
            )
        },
    }
}

/// Decides about one file.
pub fn fix_file_with_ctx(ctx: &mut RunContext, file: &SourceFile) -> (out: FileOutcome)
    ensures
        final(ctx).dry_run == old(ctx).dry_run,
        final(ctx).debug == old(ctx).debug,
        (out@, final(ctx).changelog@) == decided(old(ctx).dry_run, old(ctx).changelog@, file@),
{
    let id = "trailing-whitespace";
    let path = file.path.as_str();
    ctx.changelog.record_file_checked(id, path);
    match &file.content {
        FileContent::NotText => {
            let message = joined("Skipped non-UTF8 file: ", path);
            ctx.changelog.record_change(id, message.as_str());
            FileOutcome { changed: false, rewrite: None }
        },
        FileContent::Text(content) => {
            let fixed = clean(content.as_str());
            if !fixed.1 {
                FileOutcome { changed: false, rewrite: None }
            } else if ctx.dry_run {
                let message = joined("Would remove trailing whitespace from ", path);
                ctx.changelog.record_change(id, message.as_str());
                FileOutcome { changed: true, rewrite: None }
            } else {
                let message = joined("Removed trailing whitespace from ", path);
                ctx.changelog.record_change(id, message.as_str());
                ctx.changelog.record_file_modified(id, path);
                FileOutcome { changed: true, rewrite: Some(fixed.0) }
            }
        },
    }
}

/// The decision about one file, as a function.
pub open spec fn step() -> spec_fn(bool, ChangelogView, SourceView) -> (
    OutcomeView,
    ChangelogView,
) {
    |dry_run: bool, log: ChangelogView, file: SourceView| decided(dry_run, log, file)
}

/// Runs the fixer on the files, in order.
pub fn run_with_ctx(ctx: &mut RunContext, files: &Vec<SourceFile>) -> (report: HookReport)
    ensures
        final(ctx).dry_run == old(ctx).dry_run,
        final(ctx).debug == old(ctx).debug,
        (report@, final(ctx).changelog@) == run_files(
            step(),
            old(ctx).dry_run,
            old(ctx).changelog@,
            files.deep_view(),
        ),
{
    let ghost all = files.deep_view();
    let mut report = HookReport::new();
    let mut i: usize = 0;
    proof {
        assert(all.take(0) =~= Seq::<SourceView>::empty());
    }
    while i < files.len()
        invariant
            i <= files@.len(),
            all == files.deep_view(),
            ctx.dry_run == old(ctx).dry_run,
            ctx.debug == old(ctx).debug,
            (report@, ctx.changelog@) == run_files(
                step(),
                old(ctx).dry_run,
                old(ctx).changelog@,
                all.take(i as int),
            ),
        decreases files@.len() - i,
    {
        let outcome = fix_file_with_ctx(ctx, &files[i]);
        report.absorb(ctx.dry_run, files[i].path.as_str(), outcome);
        proof {
            assert(all.take(i + 1).drop_last() =~= all.take(i as int));
            assert(all.take(i + 1).last() == files@[i as int]@);
        }
        i = i + 1;
    }
    proof {
        assert(all.take(i as int) =~= all);
    }
    report
}

/// Runs the fixer on the files in an enforcing run of its own, whose
/// aggregate is dropped.
pub fn run(files: &Vec<SourceFile>) -> (report: HookReport)
    ensures
        report@ == run_files(
            step(),
            false,
            ChangelogView { entries: Seq::empty(), has_changes: false },
            files.deep_view(),
        ).0,
{
    let mut ctx = RunContext::default();
    run_with_ctx(&mut ctx, files)
}

} // verus!
