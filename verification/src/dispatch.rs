//! The dispatcher: the control loop of a run as a state machine.
//!
//! The hooks of the local repo groups are processed strictly in manifest
//! order. For each hook the dispatcher checks that it is enabled, resolves
//! its files, records them as examined, and decides what executes it: an
//! installed tool, a command given by path, or a built-in hook. Walking the
//! tree, installing and executing are the caller's work; the caller reports
//! what came of it as a [`RunEvent`] and [`run_config`] answers with the
//! next [`RunAction`].
//!
//! The run is fail-fast: an invalid pattern, a failed installation and a
//! command that ends without success each end the run. A built-in hook that
//! finds a violation ends an enforcing run with exit status 1 and leaves a
//! dry run untouched.

use crate::changelog::ChangelogView;
use crate::config::{HookConfig, HookView, PreCommitConfig, RepoConfig, RepoView};
use crate::config::{local_pairs, pair_views};
use crate::install::{listed, overrides, CommandSpec, CommandView, InstallError};
use crate::matcher::{
    collect_files, collected, expansions, first_invalid, lemma_first_invalid, Candidate,
    CandidateView, MatchError,
};
use crate::text::{joined, copy_pairs, extend_texts, parse_u64, parsed_u64, text_eq};
use crate::RunContext;
use vstd::prelude::*;

verus! {

broadcast use vstd::string::group_string_axioms;

/// The hooks that the engine implements itself.
#[derive(Debug, Clone, Copy, PartialEq, Eq, Structural)]
pub enum Builtin {
    TrailingWhitespace,
    EndOfFileFixer,
    CheckYaml,
    PrettyFormatJson,
    CheckAddedLargeFiles,
}

/// The built-in hook of the given id, if there is one.
pub open spec fn builtin_of(id: Seq<char>) -> Option<Builtin> {
    if id == "trailing-whitespace"@ {
        Some(Builtin::TrailingWhitespace)
    } else if id == "end-of-file-fixer"@ {
        Some(Builtin::EndOfFileFixer)
    } else if id == "check-yaml"@ {
        Some(Builtin::CheckYaml)
    } else if id == "pretty-format-json"@ {
        Some(Builtin::PrettyFormatJson)
    } else if id == "check-added-large-files"@ {
        Some(Builtin::CheckAddedLargeFiles)
    } else {
        None
    }
}

/// Executable form of [`builtin_of`].
pub fn builtin_hook(id: &str) -> (r: Option<Builtin>)
    ensures
        r == builtin_of(id@),
{
    if text_eq(id, "trailing-whitespace") {
        Some(Builtin::TrailingWhitespace)
    } else if text_eq(id, "end-of-file-fixer") {
        Some(Builtin::EndOfFileFixer)
    } else if text_eq(id, "check-yaml") {
        Some(Builtin::CheckYaml)
    } else if text_eq(id, "pretty-format-json") {
        Some(Builtin::PrettyFormatJson)
    } else if text_eq(id, "check-added-large-files") {
        Some(Builtin::CheckAddedLargeFiles)
    } else {
        None
    }
}

/// A hook that the run passed over, by its position among the local hooks.
#[derive(Debug, Clone, Copy, PartialEq, Eq, Structural)]
pub enum RunNote {
    /// The hook is switched off.
    Disabled(usize),
    /// The hook's pattern selected no file.
    NoFiles(usize),
    /// The hook carries no command and is no built-in hook.
    Unknown(usize),
}

/// Why a run ended early.
#[derive(Debug)]
pub enum RunError {
    /// The manifest holds no hook of a local repo group.
    NoLocalHooks,
    /// A hook's pattern does not compile.
    InvalidPattern(MatchError),
    /// The installation of a hook failed.
    Install(InstallError),
    /// An external command ended with a status other than success.
    CommandFailed,
    /// An observation was reported that the run did not ask for.
    UnexpectedEvent,
}

/// The mathematical content of a [`RunError`]. Of an invalid pattern it
/// keeps the pattern that was refused.
pub enum RunErrorView {
    NoLocalHooks,
    InvalidPattern(Seq<char>),
    Install(InstallError),
    CommandFailed,
    UnexpectedEvent,
}

impl View for RunError {
    type V = RunErrorView;

    open spec fn view(&self) -> RunErrorView {
        match self {
            RunError::NoLocalHooks => RunErrorView::NoLocalHooks,
            RunError::InvalidPattern(MatchError::InvalidPattern { pattern, .. }) =>
            RunErrorView::InvalidPattern(pattern@),
            RunError::Install(e) => RunErrorView::Install(*e),
            RunError::CommandFailed => RunErrorView::CommandFailed,
            RunError::UnexpectedEvent => RunErrorView::UnexpectedEvent,
        }
    }
}

/// Where a run stands. Hooks are named by their position among the local
/// hooks of the manifest.
#[derive(Debug)]
pub enum RunState {
    /// Nothing was done yet.
    Start,
    /// The working tree is being walked for the hook.
    Walking(usize),
    /// The hook's tool is being installed; the files are resolved.
    Installing(usize, Vec<String>),
    /// The hook is executing.
    Executing(usize),
    /// The changelog is being written.
    Flushing,
    /// The run is over.
    Finished,
}

/// The mathematical content of a [`RunState`].
pub enum RunStateView {
    Start,
    Walking(usize),
    Installing(usize, Seq<Seq<char>>),
    Executing(usize),
    Flushing,
    Finished,
}

impl View for RunState {
    type V = RunStateView;

    open spec fn view(&self) -> RunStateView {
        match self {
            RunState::Start => RunStateView::Start,
            RunState::Walking(i) => RunStateView::Walking(*i),
            RunState::Installing(i, paths) => RunStateView::Installing(*i, paths.deep_view()),
            RunState::Executing(i) => RunStateView::Executing(*i),
            RunState::Flushing => RunStateView::Flushing,
            RunState::Finished => RunStateView::Finished,
        }
    }
}

/// What the caller saw when it did what it was asked to.
#[derive(Debug)]
pub enum RunEvent {
    /// The run is to begin.
    Begin,
    /// The entries that the walk of the working tree produced.
    Walked(Vec<Candidate>),
    /// How the installation of the hook ended: the path of the executable,
    /// or the error.
    Installed(Result<String, InstallError>),
    /// The external command ended, with success or not.
    Exited(bool),
    /// The built-in hook ran; whether it found a violation or made a change.
    BuiltinDone(bool),
    /// The changelog was written.
    Flushed,
}

/// The mathematical content of a [`RunEvent`].
pub enum RunEventView {
    Begin,
    Walked(Seq<CandidateView>),
    Installed(Result<Seq<char>, InstallError>),
    Exited(bool),
    BuiltinDone(bool),
    Flushed,
}

impl View for RunEvent {
    type V = RunEventView;

    open spec fn view(&self) -> RunEventView {
        match self {
            RunEvent::Begin => RunEventView::Begin,
            RunEvent::Walked(c) => RunEventView::Walked(c.deep_view()),
            RunEvent::Installed(r) => RunEventView::Installed(
                match r {
                    Ok(p) => Ok(p@),
                    Err(e) => Err(*e),
                },
            ),
            RunEvent::Exited(ok) => RunEventView::Exited(*ok),
            RunEvent::BuiltinDone(v) => RunEventView::BuiltinDone(*v),
            RunEvent::Flushed => RunEventView::Flushed,
        }
    }
}

/// What the caller is to do next.
#[derive(Debug)]
pub enum RunAction {
    /// Walk the working tree with the ignore rules; report `Walked`.
    Walk,
    /// Install the tool of the hook of this position; report `Installed`.
    Install(usize),
    /// Run the command to its end; report `Exited`.
    Spawn(CommandSpec),
    /// Run the built-in hook on the files; report `BuiltinDone`.
    Builtin { hook: Builtin, paths: Vec<String>, max_bytes: Option<u64> },
    /// Write the changelog; report `Flushed`.
    Flush,
    /// The run is complete.
    Done,
    /// End the process with exit status 1: a built-in hook found a
    /// violation or made a change, and the run is enforcing.
    Exit,
    /// The run failed.
    Fail(RunError),
}

/// The mathematical content of a [`RunAction`].
pub enum RunActionView {
    Walk,
    Install(usize),
    Spawn(CommandView),
    Builtin { hook: Builtin, paths: Seq<Seq<char>>, max_bytes: Option<u64> },
    Flush,
    Done,
    Exit,
    Fail(RunErrorView),
}

impl View for RunAction {
    type V = RunActionView;

    open spec fn view(&self) -> RunActionView {
        match self {
            RunAction::Walk => RunActionView::Walk,
            RunAction::Install(i) => RunActionView::Install(*i),
            RunAction::Spawn(c) => RunActionView::Spawn(c@),
            RunAction::Builtin { hook, paths, max_bytes } => RunActionView::Builtin {
                hook: *hook,
                paths: paths.deep_view(),
                max_bytes: *max_bytes,
            },
            RunAction::Flush => RunActionView::Flush,
            RunAction::Done => RunActionView::Done,
            RunAction::Exit => RunActionView::Exit,
            RunAction::Fail(e) => RunActionView::Fail(e@),
        }
    }
}

/// What one step of the run yields.
#[derive(Debug)]
pub struct RunStep {
    pub state: RunState,
    pub action: RunAction,
    /// The hooks that this step passed over, in order.
    pub notes: Vec<RunNote>,
}

/// What one step of the run yields, with the aggregate it leaves.
pub struct RunOutcome {
    pub state: RunStateView,
    pub action: RunActionView,
    pub notes: Seq<RunNote>,
    pub log: ChangelogView,
}

/// The hooks that a run processes: those of the local repo groups, in
/// manifest order.
pub open spec fn local_hook_views(repos: Seq<RepoView>) -> Seq<HookView> {
    Seq::new(local_pairs(repos).len(), |i: int| local_pairs(repos)[i].1)
}

/// The external process that executes a hook: the program with the hook's
/// arguments followed by the files, in the hook's working directory, under
/// the environment overrides of its install spec.
pub open spec fn external_command(hook: HookView, program: Seq<char>, paths: Seq<Seq<char>>)
    -> CommandView {
    CommandView {
        label: "external command"@,
        program,
        args: listed(hook.args) + paths,
        env: match hook.install {
            Some(install) => overrides(install),
            None => Seq::empty(),
        },
        working_dir: hook.working_dir,
    }
}

/// The size limit that a hook passes to the large-file check: its first
/// argument, where that is a number.
pub open spec fn size_limit(hook: HookView) -> Option<u64> {
    match hook.args {
        Some(args) => if args.len() > 0 {
            parsed_u64(args[0])
        } else {
            None
        },
        None => None,
    }
}

/// The outcome that ends the run with an error.
pub open spec fn failed(error: RunErrorView, notes: Seq<RunNote>, log: ChangelogView)
    -> RunOutcome {
    RunOutcome { state: RunStateView::Finished, action: RunActionView::Fail(error), notes, log }
}

/// What executes a hook whose files are resolved and not empty. Every file
/// is recorded as examined first. `None` stands for a hook that is unknown:
/// it carries no command and is no built-in hook.
pub open spec fn dispatched(hook: HookView, i: usize, paths: Seq<Seq<char>>, log: ChangelogView)
    -> (Option<(RunStateView, RunActionView)>, ChangelogView) {
    let seen = log.with_all_checked(hook.id, paths);
    match hook.command {
        Some(command) => if hook.command_is_install() {
            (Some((RunStateView::Installing(i, paths), RunActionView::Install(i))), seen)
        } else {
            (
                Some(
                    (
                        RunStateView::Executing(i),
                        RunActionView::Spawn(external_command(hook, command, paths)),
                    ),
                ),
                seen.with_change(hook.id, "Ran external command: "@ + command),
            )
        },
        None => match builtin_of(hook.id) {
            Some(builtin) => (
                Some(
                    (
                        RunStateView::Executing(i),
                        RunActionView::Builtin {
                            hook: builtin,
                            paths,
                            max_bytes: size_limit(hook),
                        },
                    ),
                ),
                seen,
            ),
            None => (None, seen),
        },
    }
}

/// The run from the hook of position `i` on, up to the next thing that the
/// caller has to do. Disabled hooks are passed over; a hook with a pattern
/// needs a walk; a hook without one applies to the path `.`; after the last
/// hook the changelog is written if anything changed.
pub open spec fn advance(hooks: Seq<HookView>, i: int, log: ChangelogView, notes: Seq<RunNote>)
    -> RunOutcome
    decreases hooks.len() - i,
{
    if i < 0 || i >= hooks.len() || i >= usize::MAX {
        if log.has_changes {
            RunOutcome { state: RunStateView::Flushing, action: RunActionView::Flush, notes, log }
        } else {
            RunOutcome { state: RunStateView::Finished, action: RunActionView::Done, notes, log }
        }
    } else if !hooks[i].is_enabled() {
        advance(hooks, i + 1, log, notes.push(RunNote::Disabled(i as usize)))
    } else {
        match hooks[i].files {
            Some(pattern) => if first_invalid(expansions(pattern)) < expansions(pattern).len() {
                failed(
                    RunErrorView::InvalidPattern(
                        expansions(pattern)[first_invalid(expansions(pattern))],
                    ),
                    notes,
                    log,
                )
            } else {
                RunOutcome {
                    state: RunStateView::Walking(i as usize),
                    action: RunActionView::Walk,
                    notes,
                    log,
                }
            },
            None => {
                let next = dispatched(hooks[i], i as usize, seq!["."@], log);
                match next.0 {
                    Some(go) => RunOutcome { state: go.0, action: go.1, notes, log: next.1 },
                    None => advance(
                        hooks,
                        i + 1,
                        next.1,
                        notes.push(RunNote::Unknown(i as usize)),
                    ),
                }
            },
        }
    }
}

/// The run after the walk for the hook of position `i` came back.
pub open spec fn walked(
    hooks: Seq<HookView>,
    i: usize,
    candidates: Seq<CandidateView>,
    log: ChangelogView,
) -> RunOutcome {
    match collected(hooks[i as int].files, candidates) {
        None => failed(
            match hooks[i as int].files {
                Some(pattern) => RunErrorView::InvalidPattern(
                    expansions(pattern)[first_invalid(expansions(pattern))],
                ),
                None => RunErrorView::UnexpectedEvent,
            },
            Seq::empty(),
            log,
        ),
        Some(paths) => if paths.len() == 0 {
            advance(hooks, i + 1, log, seq![RunNote::NoFiles(i)])
        } else {
            let next = dispatched(hooks[i as int], i, paths, log);
            match next.0 {
                Some(go) => RunOutcome {
                    state: go.0,
                    action: go.1,
                    notes: Seq::empty(),
                    log: next.1,
                },
                None => advance(hooks, i + 1, next.1, seq![RunNote::Unknown(i)]),
            }
        },
    }
}

/// The transition of the dispatcher.
pub open spec fn run_step(
    hooks: Seq<HookView>,
    dry_run: bool,
    state: RunStateView,
    event: RunEventView,
    log: ChangelogView,
) -> RunOutcome {
    match (state, event) {
        (RunStateView::Start, RunEventView::Begin) => if hooks.len() == 0 {
            failed(RunErrorView::NoLocalHooks, Seq::empty(), log)
        } else {
            advance(hooks, 0, log, Seq::empty())
        },
        (RunStateView::Walking(i), RunEventView::Walked(candidates)) => if i < hooks.len() {
            walked(hooks, i, candidates, log)
        } else {
            failed(RunErrorView::UnexpectedEvent, Seq::empty(), log)
        },
        (RunStateView::Installing(i, paths), RunEventView::Installed(Ok(path))) => if i
            < hooks.len() {
            RunOutcome {
                state: RunStateView::Executing(i),
                action: RunActionView::Spawn(external_command(hooks[i as int], path, paths)),
                notes: Seq::empty(),
                log: log.with_change(hooks[i as int].id, "Ran external command: "@ + path),
            }
        } else {
            failed(RunErrorView::UnexpectedEvent, Seq::empty(), log)
        },
        (RunStateView::Installing(i, paths), RunEventView::Installed(Err(e))) => failed(
            RunErrorView::Install(e),
            Seq::empty(),
            log,
        ),
        (RunStateView::Executing(i), RunEventView::Exited(true)) => if i < hooks.len() {
            advance(hooks, i + 1, log, Seq::empty())
        } else {
            failed(RunErrorView::UnexpectedEvent, Seq::empty(), log)
        },
        (RunStateView::Executing(i), RunEventView::Exited(false)) => failed(
            RunErrorView::CommandFailed,
            Seq::empty(),
            log,
        ),
        (RunStateView::Executing(i), RunEventView::BuiltinDone(violation)) => if violation
            && !dry_run {
            RunOutcome {
                state: RunStateView::Finished,
                action: RunActionView::Exit,
                notes: Seq::empty(),
                log,
            }
        } else if i < hooks.len() {
            advance(hooks, i + 1, log, Seq::empty())
        } else {
            failed(RunErrorView::UnexpectedEvent, Seq::empty(), log)
        },
        (RunStateView::Flushing, RunEventView::Flushed) => RunOutcome {
            state: RunStateView::Finished,
            action: RunActionView::Done,
            notes: Seq::empty(),
            log,
        },
        _ => failed(RunErrorView::UnexpectedEvent, Seq::empty(), log),
    }
}

/// Builds the external process that executes a hook.
pub fn run_external_command(hook: &HookConfig, program: &str, paths: &Vec<String>) -> (out:
    CommandSpec)
    ensures
        out@ == external_command(hook@, program@, paths.deep_view()),
{
    let mut args: Vec<String> = Vec::new();
    proof {
        assert(args.deep_view() =~= Seq::<Seq<char>>::empty());
    }
    match &hook.args {
        Some(own) => {
            extend_texts(&mut args, own.as_slice());
            proof {
                assert(args.deep_view() =~= listed(hook@.args));
            }
        },
        None => {},
    }
    extend_texts(&mut args, paths.as_slice());
    let env: Vec<(String, String)> = match &hook.install {
        Some(install) => match &install.env {
            Some(e) => copy_pairs(e),
            None => Vec::new(),
        },
        None => Vec::new(),
    };
    proof {
        assert(env.deep_view() =~= match hook@.install {
            Some(install) => overrides(install),
            None => Seq::empty(),
        });
    }
    CommandSpec {
        label: String::from_str("external command"),
        program: program.to_owned(),
        args,
        env,
        working_dir: match &hook.working_dir {
            Some(d) => Some(d.clone()),
            None => None,
        },
    }
}

/// The size limit that the hook passes to the large-file check.
fn limit_of(hook: &HookConfig) -> (r: Option<u64>)
    ensures
        r == size_limit(hook@),
{
    match &hook.args {
        Some(args) => {
            if args.len() > 0 {
                assert(hook@.args->0[0] == args@[0]@);
                parse_u64(args[0].as_str())
            } else {
                None
            }
        },
        None => None,
    }
}

/// Decides what executes a hook whose files are resolved.
fn dispatch(ctx: &mut RunContext, hook: &HookConfig, i: usize, paths: Vec<String>) -> (r: Option<
    (RunState, RunAction),
>)
    ensures
        final(ctx).dry_run == old(ctx).dry_run,
        final(ctx).debug == old(ctx).debug,
        final(ctx).changelog@ == dispatched(hook@, i, paths.deep_view(), old(ctx).changelog@).1,
        match r {
            Some(go) => dispatched(hook@, i, paths.deep_view(), old(ctx).changelog@).0 == Some(
                (go.0@, go.1@),
            ),
            None => dispatched(hook@, i, paths.deep_view(), old(ctx).changelog@).0 is None,
        },
{
    ctx.changelog.record_files_checked(hook.id.as_str(), &paths);
    match &hook.command {
        Some(command) => {
            if hook.command_is_install() {
                Some((RunState::Installing(i, paths), RunAction::Install(i)))
            } else {
                let message = joined("Ran external command: ", command.as_str());
                ctx.changelog.record_change(hook.id.as_str(), message.as_str());
                let spawn = run_external_command(hook, command.as_str(), &paths);
                Some((RunState::Executing(i), RunAction::Spawn(spawn)))
            }
        },
        None => match builtin_hook(hook.id.as_str()) {
            Some(builtin) => {
                let max_bytes = limit_of(hook);
                Some(
                    (
                        RunState::Executing(i),
                        RunAction::Builtin { hook: builtin, paths, max_bytes },
                    ),
                )
            },
            None => None,
        },
    }
}

/// The list that holds the one path `.`.
fn current_dir() -> (out: Vec<String>)
    ensures
        out.deep_view() == seq!["."@],
{
    let mut out: Vec<String> = Vec::new();
    out.push(String::from_str("."));
    proof {
        assert(out.deep_view() =~= seq!["."@]);
    }
    out
}

/// Runs on from the hook of position `start`.
fn advance_from(
    ctx: &mut RunContext,
    pairs: &Vec<(&RepoConfig, &HookConfig)>,
    start: usize,
    notes: Vec<RunNote>,
    Ghost(hooks): Ghost<Seq<HookView>>,
) -> (step: RunStep)
    requires
        hooks.len() == pairs@.len(),
        forall|j: int| 0 <= j < hooks.len() ==> hooks[j] == (#[trigger] pairs@[j]).1@,
    ensures
        final(ctx).dry_run == old(ctx).dry_run,
        final(ctx).debug == old(ctx).debug,
        (RunOutcome {
            state: step.state@,
            action: step.action@,
            notes: step.notes@,
            log: final(ctx).changelog@,
        }) == advance(hooks, start as int, old(ctx).changelog@, notes@),
{
    let ghost goal = advance(hooks, start as int, ctx.changelog@, notes@);
    let mut passed = notes;
    let mut i: usize = start;
    while i < pairs.len() && i < usize::MAX
        invariant
            hooks.len() == pairs@.len(),
            forall|j: int| 0 <= j < hooks.len() ==> hooks[j] == (#[trigger] pairs@[j]).1@,
            ctx.dry_run == old(ctx).dry_run,
            ctx.debug == old(ctx).debug,
            goal == advance(hooks, start as int, old(ctx).changelog@, notes@),
            advance(hooks, i as int, ctx.changelog@, passed@) == goal,
        decreases pairs@.len() - i,
    {
        let hook = pairs[i].1;
        assert(hooks[i as int] == hook@);
        if !hook.is_enabled() {
            passed.push(RunNote::Disabled(i));
            i = i + 1;
            continue ;
        }
        match &hook.files {
            Some(pattern) => {
                proof {
                    lemma_first_invalid(expansions(pattern@));
                }
                let none: Vec<Candidate> = Vec::new();
                match collect_files(Some(pattern), &none) {
                    Ok(_) => {
                        return RunStep {
                            state: RunState::Walking(i),
                            action: RunAction::Walk,
                            notes: passed,
                        };
                    },
                    Err(e) => {
                        return RunStep {
                            state: RunState::Finished,
                            action: RunAction::Fail(RunError::InvalidPattern(e)),
                            notes: passed,
                        };
                    },
                }
            },
            None => {
                match dispatch(ctx, hook, i, current_dir()) {
                    Some(go) => {
                        return RunStep { state: go.0, action: go.1, notes: passed };
                    },
                    None => {
                        passed.push(RunNote::Unknown(i));
                        i = i + 1;
                    },
                }
            },
        }
    }
    if ctx.changelog.has_changes() {
        RunStep { state: RunState::Flushing, action: RunAction::Flush, notes: passed }
    } else {
        RunStep { state: RunState::Finished, action: RunAction::Done, notes: passed }
    }
}

/// The step that ends the run with an error.
fn fail(error: RunError) -> (step: RunStep)
    ensures
        step.state@ == RunStateView::Finished,
        step.action@ == RunActionView::Fail(error@),
        step.notes@ == Seq::<RunNote>::empty(),
{
    RunStep { state: RunState::Finished, action: RunAction::Fail(error), notes: Vec::new() }
}

/// A list of the one note.
fn one_note(note: RunNote) -> (out: Vec<RunNote>)
    ensures
        out@ == seq![note],
{
    let mut out: Vec<RunNote> = Vec::new();
    out.push(note);
    out
}

/// Runs the hooks of the manifest: advances the run by one observation.
///
/// The caller starts with `Start` and `Begin`, does what the returned
/// action says, and comes back with the state it was given and the event
/// it saw, until the action is `Done`, `Exit` or `Fail`. What the hooks
/// examined and changed accumulates in the aggregate of `ctx`.
pub fn run_config(ctx: &mut RunContext, cfg: &PreCommitConfig, state: RunState, event: RunEvent)
    -> (step: RunStep)
    ensures
        final(ctx).dry_run == old(ctx).dry_run,
        final(ctx).debug == old(ctx).debug,
        (RunOutcome {
            state: step.state@,
            action: step.action@,
            notes: step.notes@,
            log: final(ctx).changelog@,
        }) == run_step(
            local_hook_views(cfg@),
            old(ctx).dry_run,
            state@,
            event@,
            old(ctx).changelog@,
        ),
{
    let pairs = cfg.local_hooks();
    let ghost hooks = local_hook_views(cfg@);
    proof {
        assert(pair_views(pairs@).len() == pairs@.len());
        assert forall|j: int| 0 <= j < hooks.len() implies hooks[j] == (#[trigger] pairs@[j]).1@ by {
            assert(pair_views(pairs@)[j] == local_pairs(cfg@)[j]);
        }
    }
    let n = pairs.len();
    match state {
        RunState::Start => match event {
            RunEvent::Begin => {
                if n == 0 {
                    fail(RunError::NoLocalHooks)
                } else {
                    advance_from(ctx, &pairs, 0, Vec::new(), Ghost(hooks))
                }
            },
            _ => fail(RunError::UnexpectedEvent),
        },
        RunState::Walking(i) => match event {
            RunEvent::Walked(candidates) => {
                if i < n {
                    let hook = pairs[i].1;
                    assert(hooks[i as int] == hook@);
                    match collect_files(hook.files.as_ref(), &candidates) {
                        Err(e) => fail(RunError::InvalidPattern(e)),
                        Ok(paths) => {
                            if paths.len() == 0 {
                                assert(paths.deep_view().len() == 0);
                                advance_from(
                                    ctx,
                                    &pairs,
                                    i + 1,
                                    one_note(RunNote::NoFiles(i)),
                                    Ghost(hooks),
                                )
                            } else {
                                assert(paths.deep_view().len() != 0);
                                match dispatch(ctx, hook, i, paths) {
                                    Some(go) => RunStep {
                                        state: go.0,
                                        action: go.1,
                                        notes: Vec::new(),
                                    },
                                    None => advance_from(
                                        ctx,
                                        &pairs,
                                        i + 1,
                                        one_note(RunNote::Unknown(i)),
                                        Ghost(hooks),
                                    ),
                                }
                            }
                        },
                    }
                } else {
                    fail(RunError::UnexpectedEvent)
                }
            },
            _ => fail(RunError::UnexpectedEvent),
        },
        RunState::Installing(i, paths) => match event {
            RunEvent::Installed(Ok(path)) => {
                if i < n {
                    let hook = pairs[i].1;
                    assert(hooks[i as int] == hook@);
                    let message = joined("Ran external command: ", path.as_str());
                    ctx.changelog.record_change(hook.id.as_str(), message.as_str());
                    let spawn = run_external_command(hook, path.as_str(), &paths);
                    RunStep {
                        state: RunState::Executing(i),
                        action: RunAction::Spawn(spawn),
                        notes: Vec::new(),
                    }
                } else {
                    fail(RunError::UnexpectedEvent)
                }
            },
            RunEvent::Installed(Err(e)) => fail(RunError::Install(e)),
            _ => fail(RunError::UnexpectedEvent),
        },
        RunState::Executing(i) => match event {
            RunEvent::Exited(true) => {
                if i < n {
                    advance_from(ctx, &pairs, i + 1, Vec::new(), Ghost(hooks))
                } else {
                    fail(RunError::UnexpectedEvent)
                }
            },
            RunEvent::Exited(false) => fail(RunError::CommandFailed),
            RunEvent::BuiltinDone(violation) => {
                if violation && !ctx.dry_run {
                    RunStep {
                        state: RunState::Finished,
                        action: RunAction::Exit,
                        notes: Vec::new(),
                    }
                } else if i < n {
                    advance_from(ctx, &pairs, i + 1, Vec::new(), Ghost(hooks))
                } else {
                    fail(RunError::UnexpectedEvent)
                }
            },
            _ => fail(RunError::UnexpectedEvent),
        },
        RunState::Flushing => match event {
            RunEvent::Flushed => RunStep {
                state: RunState::Finished,
                action: RunAction::Done,
                notes: Vec::new(),
            },
            _ => fail(RunError::UnexpectedEvent),
        },
        RunState::Finished => fail(RunError::UnexpectedEvent),
    }
}

/// The hook that a state waits for, if it waits for one.
pub open spec fn awaited(state: RunStateView) -> Option<usize> {
    match state {
        RunStateView::Walking(k) => Some(k),
        RunStateView::Installing(k, _) => Some(k),
        RunStateView::Executing(k) => Some(k),
        _ => None,
    }
}

/// Hooks are processed in manifest order and disabled hooks never run:
/// running on from position `i`, the dispatcher waits, if for any hook,
/// for an enabled hook at or behind `i`, every hook between the two is
/// noted as passed over, and it never asks for the process to end.
pub proof fn lemma_advance_in_order(
    hooks: Seq<HookView>,
    i: int,
    log: ChangelogView,
    notes: Seq<RunNote>,
)
    requires
        0 <= i,
    ensures
        !(advance(hooks, i, log, notes).action is Exit),
        awaited(advance(hooks, i, log, notes).state) matches Some(k) ==> {
            &&& i <= k < hooks.len()
            &&& hooks[k as int].is_enabled()
            &&& advance(hooks, i, log, notes).notes.len() == notes.len() + (k - i)
        },
        notes.len() <= advance(hooks, i, log, notes).notes.len(),
    decreases hooks.len() - i,
{
    if i < hooks.len() && i < usize::MAX {
        if !hooks[i].is_enabled() {
            lemma_advance_in_order(hooks, i + 1, log, notes.push(RunNote::Disabled(i as usize)));
        } else if hooks[i].files is None {
            let next = dispatched(hooks[i], i as usize, seq!["."@], log);
            if next.0 is None {
                lemma_advance_in_order(
                    hooks,
                    i + 1,
                    next.1,
                    notes.push(RunNote::Unknown(i as usize)),
                );
            }
        }
    }
}

/// A dry run reports and never enforces: whatever the state and whatever
/// is reported, the dispatcher of a dry run never asks for the process to
/// end with a failure status.
pub proof fn lemma_dry_run_never_exits(
    hooks: Seq<HookView>,
    state: RunStateView,
    event: RunEventView,
    log: ChangelogView,
)
    ensures
        !(run_step(hooks, true, state, event, log).action is Exit),
{
    lemma_advance_in_order(hooks, 0, log, Seq::empty());
    match (state, event) {
        (RunStateView::Walking(i), RunEventView::Walked(candidates)) => {
            if i < hooks.len() {
                match collected(hooks[i as int].files, candidates) {
                    Some(paths) => {
                        lemma_advance_in_order(hooks, i + 1, log, seq![RunNote::NoFiles(i)]);
                        let next = dispatched(hooks[i as int], i, paths, log);
                        lemma_advance_in_order(hooks, i + 1, next.1, seq![RunNote::Unknown(i)]);
                    },
                    None => {},
                }
            }
        },
        (RunStateView::Executing(i), _) => {
            lemma_advance_in_order(hooks, i + 1, log, Seq::empty());
        },
        _ => {},
    }
}

/// Every file of a hook is recorded as examined before the hook executes,
/// whatever executes it and even where nothing does.
pub proof fn lemma_files_are_recorded_first(
    hook: HookView,
    i: usize,
    paths: Seq<Seq<char>>,
    log: ChangelogView,
)
    ensures
        hook.command is None || hook.command_is_install() ==> dispatched(hook, i, paths, log).1
            == log.with_all_checked(hook.id, paths),
        hook.command is Some && !hook.command_is_install() ==> dispatched(hook, i, paths, log).1
            == log.with_all_checked(hook.id, paths).with_change(
            hook.id,
            "Ran external command: "@ + hook.command->0,
        ),
{
}

/// Disabled hooks leave no trace: where every hook from position `i` on is
/// switched off, the run goes to its end with the aggregate as it was, and
/// asks for nothing but, at most, the writing of the changelog.
pub proof fn lemma_disabled_hooks_leave_no_trace(
    hooks: Seq<HookView>,
    i: int,
    log: ChangelogView,
    notes: Seq<RunNote>,
)
    requires
        0 <= i,
        forall|j: int| i <= j < hooks.len() ==> !(#[trigger] hooks[j]).is_enabled(),
    ensures
        advance(hooks, i, log, notes).log == log,
        advance(hooks, i, log, notes).action == if log.has_changes {
            RunActionView::Flush
        } else {
            RunActionView::Done
        },
    decreases hooks.len() - i,
{
    if i < hooks.len() && i < usize::MAX {
        lemma_disabled_hooks_leave_no_trace(
            hooks,
            i + 1,
            log,
            notes.push(RunNote::Disabled(i as usize)),
        );
    }
}

} // verus!
