//! The built-in hooks.
//!
//! A hook is a stateless transform of file content. The caller reads the
//! files and hands them in; the hook records what it examined in the
//! aggregate of the run, says whether it found a violation or would change
//! the file, and, in an enforcing run, hands back the new content for the
//! caller to write. In a dry run nothing is handed back and nothing fails.

pub mod check_added_large_files;
pub mod check_yaml;
pub mod end_of_file;
pub mod pretty_format_json;
pub mod trailing_whitespace;

use crate::changelog::ChangelogView;
use vstd::prelude::*;

verus! {

broadcast use vstd::string::group_string_axioms;

/// What the caller read from a file.
#[derive(Debug)]
pub enum FileContent {
    /// The content, which is valid UTF-8.
    Text(String),
    /// The file does not hold valid UTF-8.
    NotText,
}

/// The mathematical content of a [`FileContent`].
pub enum ContentView {
    Text(Seq<char>),
    NotText,
}

impl View for FileContent {
    type V = ContentView;

    open spec fn view(&self) -> ContentView {
        match self {
            FileContent::Text(s) => ContentView::Text(s@),
            FileContent::NotText => ContentView::NotText,
        }
    }
}

/// A file as a hook sees it.
#[derive(Debug)]
pub struct SourceFile {
    pub path: String,
    pub content: FileContent,
}

/// The mathematical content of a [`SourceFile`].
pub struct SourceView {
    pub path: Seq<char>,
    pub content: ContentView,
}

impl View for SourceFile {
    type V = SourceView;

    open spec fn view(&self) -> SourceView {
        SourceView { path: self.path@, content: self.content@ }
    }
}

impl DeepView for SourceFile {
    type V = SourceView;

    open spec fn deep_view(&self) -> SourceView {
        self@
    }
}

/// What a hook decided about one file.
#[derive(Debug)]
pub struct FileOutcome {
    /// Whether the hook found a violation or a change to make.
    pub changed: bool,
    /// The content to write to the file, in an enforcing run that changes
    /// it.
    pub rewrite: Option<String>,
}

/// The mathematical content of a [`FileOutcome`].
pub struct OutcomeView {
    pub changed: bool,
    pub rewrite: Option<Seq<char>>,
}

impl View for FileOutcome {
    type V = OutcomeView;

    open spec fn view(&self) -> OutcomeView {
        OutcomeView { changed: self.changed, rewrite: self.rewrite.deep_view() }
    }
}

/// The outcome of a file that is left as it is.
pub open spec fn untouched() -> OutcomeView {
    OutcomeView { changed: false, rewrite: None }
}

/// What a hook decided about the files it was run on.
#[derive(Debug)]
pub struct HookReport {
    /// Whether the hook found a violation or a change to make in any file.
    pub changed: bool,
    /// The files to rewrite, each with its new content, in the order of the
    /// files.
    pub rewrites: Vec<(String, String)>,
    /// The exit status that the hook asks for: 1 where an enforcing run
    /// found a violation or made a change, else 0.
    pub exit_code: u8,
}

/// The mathematical content of a [`HookReport`].
pub struct ReportView {
    pub changed: bool,
    pub rewrites: Seq<(Seq<char>, Seq<char>)>,
    pub exit_code: u8,
}

impl View for HookReport {
    type V = ReportView;

    open spec fn view(&self) -> ReportView {
        ReportView {
            changed: self.changed,
            rewrites: self.rewrites.deep_view(),
            exit_code: self.exit_code,
        }
    }
}

/// The exit status of a hook: a violation or a change fails an enforcing
/// run and never a dry run.
pub open spec fn exit_status(dry_run: bool, changed: bool) -> u8 {
    if changed && !dry_run {
        1
    } else {
        0
    }
}

/// The report of a hook that was run on no file.
pub open spec fn empty_report() -> ReportView {
    ReportView { changed: false, rewrites: Seq::empty(), exit_code: 0 }
}

/// The report after one more file was decided.
pub open spec fn absorbed(report: ReportView, dry_run: bool, path: Seq<char>, outcome: OutcomeView)
    -> ReportView {
    ReportView {
        changed: report.changed || outcome.changed,
        rewrites: match outcome.rewrite {
            Some(content) => report.rewrites.push((path, content)),
            None => report.rewrites,
        },
        exit_code: exit_status(dry_run, report.changed || outcome.changed),
    }
}

/// The report of a hook that decides file by file, in the order of the
/// files, and the aggregate it leaves.
pub open spec fn run_files(
    step: spec_fn(bool, ChangelogView, SourceView) -> (OutcomeView, ChangelogView),
    dry_run: bool,
    log: ChangelogView,
    files: Seq<SourceView>,
) -> (ReportView, ChangelogView)
    decreases files.len(),
{
    if files.len() == 0 {
        (empty_report(), log)
    } else {
        let before = run_files(step, dry_run, log, files.drop_last());
        let last = step(dry_run, before.1, files.last());
        (absorbed(before.0, dry_run, files.last().path, last.0), last.1)
    }
}

impl HookReport {
    /// The report of a hook that was run on no file.
    pub fn new() -> (r: Self)
        ensures
            r@ == empty_report(),
    {
        let r = HookReport { changed: false, rewrites: Vec::new(), exit_code: 0 };
        proof {
            assert(r.rewrites.deep_view() =~= Seq::<(Seq<char>, Seq<char>)>::empty());
        }
        r
    }

    /// Takes the outcome of one more file into the report.
    pub fn absorb(&mut self, dry_run: bool, path: &str, outcome: FileOutcome)
        ensures
            final(self)@ == absorbed(old(self)@, dry_run, path@, outcome@),
    {
        let ghost before = self.rewrites.deep_view();
        self.changed = self.changed || outcome.changed;
        match outcome.rewrite {
            Some(content) => {
                let ghost shown = content@;
                self.rewrites.push((path.to_owned(), content));
                proof {
                    assert(self.rewrites.deep_view() =~= before.push((path@, shown)));
                }
            },
            None => {},
        }
        self.exit_code = if self.changed && !dry_run {
            1
        } else {
            0
        };
    }
}

/// A dry run reports and never fails: whatever a hook finds, it asks for
/// exit status 0, and it asks for 1 only where an enforcing run found
/// something.
pub proof fn lemma_dry_run_never_fails(dry_run: bool, changed: bool)
    ensures
        dry_run ==> exit_status(dry_run, changed) == 0,
        exit_status(dry_run, changed) == 1 <==> changed && !dry_run,
{
}

} // verus!
