//! The install manager as a state machine.
//!
//! Installing a hook alternates decisions with work on the outside world:
//! create a directory, look whether the executable is there, run an
//! installer, look again, record the result. The library decides; the
//! caller does the work and reports what it saw as an [`InstallEvent`].
//! [`ensure_installed`] maps the state and the event to the next state and
//! the next thing to do.
//!
//! A failure of the outside work itself (a directory that cannot be
//! created, a process that cannot be started) ends the installation at the
//! caller; it is not an event.

use crate::config::{HookConfig, HookView, InstallConfig, InstallLanguage, InstallView};
use crate::install::{
    install_plan, lemma_join_below, path_join, plan_of, root_head, tool_dir, CommandSpec,
    CommandView, EnvView, InstallEnv, InstallError, InstallPlan, PlanStep, PlanStepView,
    PlanView,
};
use crate::text::{joined, joined3};
use vstd::prelude::*;

verus! {

broadcast use {vstd::string::group_string_axioms, vstd::seq_lib::group_seq_properties};

/// Where an installation stands.
#[derive(Debug, Clone, Copy, PartialEq, Eq, Structural)]
pub enum InstallState {
    /// Nothing was done yet.
    Start,
    /// The hook's install root is being created.
    CreatingRoot,
    /// The caller looks whether the executable is there already.
    Probing,
    /// The working directory of the installer is being created.
    Preparing,
    /// The step of this index is running.
    Running(usize),
    /// The caller looks whether the installers left the executable.
    Verifying,
    /// The lock record is being written.
    Recording,
    /// The installation is over.
    Finished,
}

/// What the caller saw when it did what it was asked to.
#[derive(Debug, Clone, Copy, PartialEq, Eq, Structural)]
pub enum InstallEvent {
    /// The installation is to begin.
    Begin,
    /// The directory exists now.
    DirCreated,
    /// Whether the path exists.
    Exists(bool),
    /// The process ended, with success or not.
    Exited(bool),
    /// The lock record was written.
    Recorded,
}

/// What goes into the lock record of an installed hook.
#[derive(Debug)]
pub struct LockRequest {
    pub id: String,
    pub language: String,
    pub source: Option<String>,
    pub entry: Option<String>,
    /// The path of the executable.
    pub binary_path: String,
}

/// The mathematical content of a [`LockRequest`].
pub struct LockRequestView {
    pub id: Seq<char>,
    pub language: Seq<char>,
    pub source: Option<Seq<char>>,
    pub entry: Option<Seq<char>>,
    pub binary_path: Seq<char>,
}

impl View for LockRequest {
    type V = LockRequestView;

    open spec fn view(&self) -> LockRequestView {
        LockRequestView {
            id: self.id@,
            language: self.language@,
            source: self.source.deep_view(),
            entry: self.entry.deep_view(),
            binary_path: self.binary_path@,
        }
    }
}

/// What the caller is to do next.
#[derive(Debug)]
pub enum InstallAction {
    /// Create the directory and what lies above it; report `DirCreated`.
    CreateDir(String),
    /// Look whether the path exists; report `Exists`.
    CheckExists(String),
    /// Run the command to its end; report `Exited`.
    Run(CommandSpec),
    /// Hash the executable and write its lock record; report `Recorded`.
    Record(LockRequest),
    /// The hook is installed; its executable is at the path.
    Done(String),
    /// The installation failed.
    Fail(InstallError),
}

/// The mathematical content of an [`InstallAction`].
pub enum ActionView {
    CreateDir(Seq<char>),
    CheckExists(Seq<char>),
    Run(CommandView),
    Record(LockRequestView),
    Done(Seq<char>),
    Fail(InstallError),
}

impl View for InstallAction {
    type V = ActionView;

    open spec fn view(&self) -> ActionView {
        match self {
            InstallAction::CreateDir(p) => ActionView::CreateDir(p@),
            InstallAction::CheckExists(p) => ActionView::CheckExists(p@),
            InstallAction::Run(c) => ActionView::Run(c@),
            InstallAction::Record(r) => ActionView::Record(r@),
            InstallAction::Done(p) => ActionView::Done(p@),
            InstallAction::Fail(e) => ActionView::Fail(*e),
        }
    }
}

/// The source recorded for an installed hook: `package:<name>` or
/// `repo:<locator>`, with `@<version>` where a version is pinned; the
/// package comes before the repository.
pub open spec fn source_descriptor(install: InstallView) -> Option<Seq<char>> {
    match install.package {
        Some(p) => match install.version {
            Some(v) => Some("package:"@ + p + "@"@ + v),
            None => Some("package:"@ + p),
        },
        None => match install.repo {
            Some(r) => match install.version {
                Some(v) => Some("repo:"@ + r + "@"@ + v),
                None => Some("repo:"@ + r),
            },
            None => None,
        },
    }
}

/// The lock record asked for once the executable of a hook is there.
pub open spec fn lock_request(hook: HookView, install: InstallView, plan: PlanView)
    -> LockRequestView {
    LockRequestView {
        id: hook.id,
        language: install.language.name(),
        source: source_descriptor(install),
        entry: Some(install.entry_name(hook.id)),
        binary_path: plan.target,
    }
}

/// What happens when the step of index `k` is reached: it runs, or it
/// fails, or, past the last step, the executable is looked for.
pub open spec fn enter_step(plan: PlanView, k: int) -> (InstallState, ActionView) {
    if 0 <= k < plan.steps.len() && k <= usize::MAX {
        match plan.steps[k] {
            PlanStepView::Run(c) => (InstallState::Running(k as usize), ActionView::Run(c)),
            PlanStepView::Fail(e) => (InstallState::Finished, ActionView::Fail(e)),
        }
    } else {
        (InstallState::Verifying, ActionView::CheckExists(plan.target))
    }
}

/// An event that the state did not ask for ends the installation.
pub open spec fn refused() -> (InstallState, ActionView) {
    (InstallState::Finished, ActionView::Fail(InstallError::UnexpectedEvent))
}

/// The transition of the install manager for a hook with an install spec.
pub open spec fn planned_step(
    hook: HookView,
    install: InstallView,
    plan: PlanView,
    state: InstallState,
    event: InstallEvent,
) -> (InstallState, ActionView) {
    match (state, event) {
        (InstallState::Start, InstallEvent::Begin) => (
            InstallState::CreatingRoot,
            ActionView::CreateDir(plan.root),
        ),
        (InstallState::CreatingRoot, InstallEvent::DirCreated) => (
            InstallState::Probing,
            ActionView::CheckExists(plan.target),
        ),
        (InstallState::Probing, InstallEvent::Exists(true)) => (
            InstallState::Recording,
            ActionView::Record(lock_request(hook, install, plan)),
        ),
        (InstallState::Probing, InstallEvent::Exists(false)) => match plan.prepare {
            Some(dir) => (InstallState::Preparing, ActionView::CreateDir(dir)),
            None => enter_step(plan, 0),
        },
        (InstallState::Preparing, InstallEvent::DirCreated) => enter_step(plan, 0),
        (InstallState::Running(k), InstallEvent::Exited(true)) => if k < plan.steps.len() {
            enter_step(plan, k + 1)
        } else {
            refused()
        },
        (InstallState::Running(k), InstallEvent::Exited(false)) => (
            InstallState::Finished,
            ActionView::Fail(InstallError::CommandFailed),
        ),
        (InstallState::Verifying, InstallEvent::Exists(true)) => (
            InstallState::Recording,
            ActionView::Record(lock_request(hook, install, plan)),
        ),
        (InstallState::Verifying, InstallEvent::Exists(false)) => (
            InstallState::Finished,
            ActionView::Fail(
                if install.language == InstallLanguage::Go {
                    InstallError::NotCreated
                } else {
                    InstallError::BinaryMissing
                },
            ),
        ),
        (InstallState::Recording, InstallEvent::Recorded) => (
            InstallState::Finished,
            ActionView::Done(plan.target),
        ),
        _ => refused(),
    }
}

/// The transition of the install manager. A hook without an install spec
/// fails at once; any other hook follows its plan.
pub open spec fn install_step(
    hook: HookView,
    env: EnvView,
    state: InstallState,
    event: InstallEvent,
) -> (InstallState, ActionView) {
    match hook.install {
        None => if state == InstallState::Start && event == InstallEvent::Begin {
            (InstallState::Finished, ActionView::Fail(InstallError::MissingInstall))
        } else {
            refused()
        },
        Some(install) => planned_step(hook, install, plan_of(hook, install, env), state, event),
    }
}

/// Builds the lock record request of a hook.
fn request_for(hook: &HookConfig, install: &InstallConfig, plan: &InstallPlan) -> (out:
    LockRequest)
    ensures
        out@ == lock_request(hook@, install@, plan@),
{
    let source: Option<String> = match &install.package {
        Some(p) => match &install.version {
            Some(v) => {
                let head = joined("package:", p.as_str());
                let out = joined3(head.as_str(), "@", v.as_str());
                Some(out)
            },
            None => Some(joined("package:", p.as_str())),
        },
        None => match &install.repo {
            Some(r) => match &install.version {
                Some(v) => {
                    let head = joined("repo:", r.as_str());
                    let out = joined3(head.as_str(), "@", v.as_str());
                    Some(out)
                },
                None => Some(joined("repo:", r.as_str())),
            },
            None => None,
        },
    };
    LockRequest {
        id: hook.id.clone(),
        language: install.language.as_str().to_owned(),
        source,
        entry: Some(install.entry(hook.id.as_str()).to_owned()),
        binary_path: plan.target.clone(),
    }
}

/// Takes the step of index `k` out of the plan and enters it.
fn enter(plan: InstallPlan, k: usize) -> (r: (InstallState, InstallAction))
    ensures
        r.0 == enter_step(plan@, k as int).0,
        r.1@ == enter_step(plan@, k as int).1,
{
    let mut plan = plan;
    if k < plan.steps.len() {
        let ghost before = plan.steps.deep_view();
        let step = plan.steps.remove(k);
        assert(step@ == before[k as int]);
        match step {
            PlanStep::Run(c) => (InstallState::Running(k), InstallAction::Run(c)),
            PlanStep::Fail(e) => (InstallState::Finished, InstallAction::Fail(e)),
        }
    } else {
        (InstallState::Verifying, InstallAction::CheckExists(plan.target))
    }
}

/// The answer to an event that was not asked for.
fn refuse() -> (r: (InstallState, InstallAction))
    ensures
        r.0 == refused().0,
        r.1@ == refused().1,
{
    (InstallState::Finished, InstallAction::Fail(InstallError::UnexpectedEvent))
}

/// Guarantees that a runnable binary exists for an externally provisioned
/// hook: advances its installation by one observation.
///
/// The caller starts with `Start` and `Begin`, does what the returned
/// action says, and comes back with the state it was given and the event
/// it saw, until the action is `Done` or `Fail`.
pub fn ensure_installed(
    hook: &HookConfig,
    env: &InstallEnv,
    state: InstallState,
    event: InstallEvent,
) -> (r: (InstallState, InstallAction))
    ensures
        r.0 == install_step(hook@, env@, state, event).0,
        r.1@ == install_step(hook@, env@, state, event).1,
{
    let install = match &hook.install {
        None => {
            if state == InstallState::Start && event == InstallEvent::Begin {
                return (
                    InstallState::Finished,
                    InstallAction::Fail(InstallError::MissingInstall),
                );
            }
            return refuse();
        },
        Some(i) => i,
    };
    let plan = install_plan(hook, install, env);
    match state {
        InstallState::Start => match event {
            InstallEvent::Begin => (InstallState::CreatingRoot, InstallAction::CreateDir(plan.root)),
            _ => refuse(),
        },
        InstallState::CreatingRoot => match event {
            InstallEvent::DirCreated => (
                InstallState::Probing,
                InstallAction::CheckExists(plan.target),
            ),
            _ => refuse(),
        },
        InstallState::Probing => match event {
            InstallEvent::Exists(true) => {
                let request = request_for(hook, install, &plan);
                (InstallState::Recording, InstallAction::Record(request))
            },
            InstallEvent::Exists(false) => {
                let mut plan = plan;
                let ghost whole = plan@;
                match plan.prepare.take() {
                    Some(dir) => (InstallState::Preparing, InstallAction::CreateDir(dir)),
                    None => {
                        assert(plan@ == whole);
                        enter(plan, 0)
                    },
                }
            },
            _ => refuse(),
        },
        InstallState::Preparing => match event {
            InstallEvent::DirCreated => enter(plan, 0),
            _ => refuse(),
        },
        InstallState::Running(k) => match event {
            InstallEvent::Exited(true) => {
                if k < plan.steps.len() {
                    enter(plan, k + 1)
                } else {
                    refuse()
                }
            },
            InstallEvent::Exited(false) => (
                InstallState::Finished,
                InstallAction::Fail(InstallError::CommandFailed),
            ),
            _ => refuse(),
        },
        InstallState::Verifying => match event {
            InstallEvent::Exists(true) => {
                let request = request_for(hook, install, &plan);
                (InstallState::Recording, InstallAction::Record(request))
            },
            InstallEvent::Exists(false) => {
                let error = match install.language {
                    InstallLanguage::Go => InstallError::NotCreated,
                    _ => InstallError::BinaryMissing,
                };
                (InstallState::Finished, InstallAction::Fail(error))
            },
            _ => refuse(),
        },
        InstallState::Recording => match event {
            InstallEvent::Recorded => (InstallState::Finished, InstallAction::Done(plan.target)),
            _ => refuse(),
        },
        InstallState::Finished => refuse(),
    }
}

/// What the install manager asks for, one action per event, when the
/// caller reports `events` in turn from `state` on.
pub open spec fn replay(
    hook: HookView,
    env: EnvView,
    state: InstallState,
    events: Seq<InstallEvent>,
) -> Seq<ActionView>
    decreases events.len(),
{
    if events.len() == 0 {
        Seq::empty()
    } else {
        let next = install_step(hook, env, state, events[0]);
        seq![next.1] + replay(hook, env, next.0, events.drop_first())
    }
}

/// Whether none of the actions starts a process.
pub open spec fn starts_nothing(actions: Seq<ActionView>) -> bool {
    forall|i: int| 0 <= i < actions.len() ==> !(#[trigger] actions[i] is Run)
}

/// Once the lock record is being written, or the installation is over, no
/// process is started any more, whatever is reported.
pub proof fn lemma_settled_starts_nothing(
    hook: HookView,
    env: EnvView,
    state: InstallState,
    events: Seq<InstallEvent>,
)
    requires
        state is Recording || state is Finished,
    ensures
        starts_nothing(replay(hook, env, state, events)),
    decreases events.len(),
{
    if events.len() > 0 {
        let next = install_step(hook, env, state, events[0]);
        lemma_settled_starts_nothing(hook, env, next.0, events.drop_first());
        let tail = replay(hook, env, next.0, events.drop_first());
        let all = replay(hook, env, state, events);
        assert forall|i: int| 0 <= i < all.len() implies !(#[trigger] all[i] is Run) by {
            if i > 0 {
                assert(all[i] == tail[i - 1]);
            }
        }
    }
}

/// Installing is idempotent: where the executable is found at the first
/// look, the install manager starts no installer, whatever follows. A
/// second resolution of a hook whose first one succeeded is of this kind,
/// since a successful one leaves the executable in place.
pub proof fn lemma_present_target_starts_nothing(
    hook: HookView,
    env: EnvView,
    rest: Seq<InstallEvent>,
)
    ensures
        starts_nothing(
            replay(
                hook,
                env,
                InstallState::Start,
                seq![InstallEvent::Begin, InstallEvent::DirCreated, InstallEvent::Exists(true)]
                    + rest,
            ),
        ),
{
    let events = seq![InstallEvent::Begin, InstallEvent::DirCreated, InstallEvent::Exists(true)]
        + rest;
    let s1 = install_step(hook, env, InstallState::Start, events[0]);
    let e1 = events.drop_first();
    let s2 = install_step(hook, env, s1.0, e1[0]);
    let e2 = e1.drop_first();
    let s3 = install_step(hook, env, s2.0, e2[0]);
    let e3 = e2.drop_first();
    assert(e3 =~= rest);
    assert(s3.0 is Recording || s3.0 is Finished);
    lemma_settled_starts_nothing(hook, env, s3.0, e3);
    let t3 = replay(hook, env, s3.0, e3);
    let t2 = replay(hook, env, s2.0, e2);
    let t1 = replay(hook, env, s1.0, e1);
    let t0 = replay(hook, env, InstallState::Start, events);
    assert(t2 =~= seq![s3.1] + t3);
    assert(t1 =~= seq![s2.1] + t2);
    assert(t0 =~= seq![s1.1] + t1);
    assert forall|i: int| 0 <= i < t0.len() implies !(#[trigger] t0[i] is Run) by {
        if i >= 3 {
            assert(t0[i] == t3[i - 3]);
        }
    }
}

/// Success means that the executable exists: `Done` is only ever the
/// answer to `Recorded` while recording, and recording is only ever
/// entered on the report that the executable exists.
pub proof fn lemma_done_means_present(
    hook: HookView,
    env: EnvView,
    state: InstallState,
    event: InstallEvent,
)
    ensures
        install_step(hook, env, state, event).1 is Done ==> state is Recording && event
            == InstallEvent::Recorded,
        install_step(hook, env, state, event).0 is Recording ==> event == InstallEvent::Exists(
            true,
        ) && (state is Probing || state is Verifying),
{
}

/// Every process that the install manager starts is a step of the hook's
/// plan, and the hook has an install spec.
pub proof fn lemma_runs_are_planned(
    hook: HookView,
    env: EnvView,
    state: InstallState,
    event: InstallEvent,
)
    ensures
        install_step(hook, env, state, event).1 matches ActionView::Run(c) ==> {
            &&& hook.install matches Some(install)
            &&& exists|k: int|
                0 <= k < plan_of(hook, install, env).steps.len() && #[trigger] plan_of(
                    hook,
                    install,
                    env,
                ).steps[k] == PlanStepView::Run(c)
        },
{
    if hook.install is Some {
        let install = hook.install->0;
        let plan = plan_of(hook, install, env);
        let r = install_step(hook, env, state, event);
        if r.1 is Run {
            let k = r.0->Running_0 as int;
            assert(r.0 is Running);
            assert(plan.steps[k] == PlanStepView::Run(r.1->Run_0));
        }
    }
}

/// A module-install hook whose package carries no version, and that pins
/// none, fails as a matter of configuration before any process is started:
/// no report whatsoever makes the install manager start one.
pub proof fn lemma_unversioned_module_starts_nothing(
    hook: HookView,
    env: EnvView,
    state: InstallState,
    event: InstallEvent,
)
    requires
        hook.install matches Some(install) && install.language == InstallLanguage::Go
            && install.version is None && (install.package matches Some(p) ==> !crate::text::has_char(p, '@')),
    ensures
        !(install_step(hook, env, state, event).1 is Run),
{
    lemma_runs_are_planned(hook, env, state, event);
}

/// A hook whose install spec names neither a package nor a repository
/// fails as a matter of configuration before any process is started: no
/// report whatsoever makes the install manager start one.
pub proof fn lemma_nothing_to_install_starts_nothing(
    hook: HookView,
    env: EnvView,
    state: InstallState,
    event: InstallEvent,
)
    requires
        hook.install matches Some(install) && install.package is None && install.repo is None,
    ensures
        !(install_step(hook, env, state, event).1 is Run),
{
    lemma_runs_are_planned(hook, env, state, event);
}

/// The executable of a hook lies below the working root, and the lock
/// store records its path relative to the root: what the path would be
/// from an empty root, that is the tools directory, the hook's id and what
/// the ecosystem adds.
pub proof fn lemma_target_below_root(hook: HookView, install: InstallView, env: EnvView)
    ensures
        crate::lock::relative_to(plan_of(hook, install, env).target, env.root) == plan_of(
            hook,
            install,
            EnvView { root: Seq::empty(), ..env },
        ).target,
        plan_of(hook, install, env).target == root_head(env.root) + plan_of(
            hook,
            install,
            EnvView { root: Seq::empty(), ..env },
        ).target,
{
    reveal_strlit("/");
    reveal_strlit(".precommit-tools");
    reveal_strlit("bin");
    reveal_strlit("venv");
    reveal_strlit("Scripts");
    reveal_strlit("node_modules");
    reveal_strlit(".bin");
    let none = Seq::<char>::empty();
    let bare = EnvView { root: none, ..env };
    let head = root_head(env.root);
    let tools = ".precommit-tools"@;
    let near = plan_of(hook, install, bare).target;
    let far = plan_of(hook, install, env).target;
    // the tools directory
    assert(path_join(none, tools) =~= tools);
    assert(path_join(env.root, tools) =~= head + tools) by {
        assert(env.root + none =~= env.root);
        assert(env.root + "/"@ + none =~= env.root + "/"@);
    }
    // the install root of the hook
    let dir = tool_dir(none, hook.id);
    lemma_join_below(head, tools, hook.id);
    lemma_join_below(none, tools, hook.id);
    assert(tool_dir(env.root, hook.id) == head + dir);
    assert(dir[0] == '.');
    // what the ecosystem adds
    match install.language {
        InstallLanguage::Rust => {
            let bin = path_join(dir, "bin"@);
            lemma_join_below(head, dir, "bin"@);
            lemma_join_below(head, bin, install.binary_name(hook.id));
        },
        InstallLanguage::Python => {
            let venv = path_join(dir, "venv"@);
            let sub = if env.windows {
                "Scripts"@
            } else {
                "bin"@
            };
            let bin = path_join(venv, sub);
            lemma_join_below(head, dir, "venv"@);
            lemma_join_below(head, venv, sub);
            lemma_join_below(head, bin, install.entry_name(hook.id));
        },
        InstallLanguage::Node => {
            let modules = path_join(dir, "node_modules"@);
            let bin = path_join(modules, ".bin"@);
            lemma_join_below(head, dir, "node_modules"@);
            lemma_join_below(head, modules, ".bin"@);
            lemma_join_below(head, bin, install.entry_name(hook.id));
        },
        InstallLanguage::Go => {
            let bin = path_join(dir, "bin"@);
            lemma_join_below(head, dir, "bin"@);
            lemma_join_below(head, bin, install.entry_name(hook.id));
        },
    }
    assert(far == head + near);
    assert(near.len() > 0 && near[0] == '.');
    // as seen from the root
    if env.root.len() == 0 {
        assert(head =~= none);
        assert(none + near =~= near);
        assert((env.root + seq!['/'])[0] == '/');
    } else if env.root.last() == '/' {
        assert(head =~= env.root);
        assert(env.root =~= far.subrange(0, env.root.len() as int));
        assert(far.skip(env.root.len() as int) =~= near);
    } else {
        assert(head =~= env.root + seq!['/']);
        assert(head =~= far.subrange(0, head.len() as int));
        assert(far.skip(env.root.len() as int + 1) =~= near);
    }
}

} // verus!
