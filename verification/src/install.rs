//! The install manager: where the executable of an externally provisioned
//! hook lives, and which commands put it there.
//!
//! Nothing here runs a command or looks at the disk. For each ecosystem the
//! library computes an [`InstallPlan`]: the path of the executable and the
//! steps that install it. [`crate::installer`] walks such a plan, one
//! observation of the outside world at a time.

use crate::config::{HookConfig, HookView, InstallConfig, InstallLanguage, InstallView};
use crate::text::{
    chars_of, contains_pair, copy_pairs, extend_texts, find_char, has_char, has_pair, joined,
    joined3, push_text,
};
use vstd::prelude::*;

verus! {

broadcast use {vstd::string::group_string_axioms, vstd::seq_lib::group_seq_properties};

/// An external process to start.
#[derive(Debug)]
pub struct CommandSpec {
    /// The name by which messages refer to the command.
    pub label: String,
    /// The executable.
    pub program: String,
    /// Its arguments, in order.
    pub args: Vec<String>,
    /// Environment variables to set for the process, applied in order.
    pub env: Vec<(String, String)>,
    /// The directory to start the process in, if not the current one.
    pub working_dir: Option<String>,
}

/// The mathematical content of a [`CommandSpec`].
pub struct CommandView {
    pub label: Seq<char>,
    pub program: Seq<char>,
    pub args: Seq<Seq<char>>,
    pub env: Seq<(Seq<char>, Seq<char>)>,
    pub working_dir: Option<Seq<char>>,
}

impl View for CommandSpec {
    type V = CommandView;

    open spec fn view(&self) -> CommandView {
        CommandView {
            label: self.label@,
            program: self.program@,
            args: self.args.deep_view(),
            env: self.env.deep_view(),
            working_dir: self.working_dir.deep_view(),
        }
    }
}

impl DeepView for CommandSpec {
    type V = CommandView;

    open spec fn deep_view(&self) -> CommandView {
        self@
    }
}

/// Why an installation cannot go on.
#[derive(Debug, Clone, Copy, PartialEq, Eq, Structural)]
pub enum InstallError {
    /// The hook resolves by installation but carries no install spec.
    MissingInstall,
    /// The install spec names neither a package nor a repository.
    MissingTarget,
    /// The install spec of a module-install hook names no package.
    MissingPackage,
    /// No version is pinned and the package reference embeds none.
    MissingVersion,
    /// An installer command ended with a status other than success.
    CommandFailed,
    /// The installers succeeded but the executable is not where it must be.
    BinaryMissing,
    /// The module installer succeeded but created no binary.
    NotCreated,
    /// An observation was reported that the installation did not ask for.
    UnexpectedEvent,
}

/// One step of an installation.
#[derive(Debug)]
pub enum PlanStep {
    /// Run the command and go on if it succeeds.
    Run(CommandSpec),
    /// Stop with the error.
    Fail(InstallError),
}

/// The mathematical content of a [`PlanStep`].
pub enum PlanStepView {
    Run(CommandView),
    Fail(InstallError),
}

impl View for PlanStep {
    type V = PlanStepView;

    open spec fn view(&self) -> PlanStepView {
        match self {
            PlanStep::Run(c) => PlanStepView::Run(c@),
            PlanStep::Fail(e) => PlanStepView::Fail(*e),
        }
    }
}

impl DeepView for PlanStep {
    type V = PlanStepView;

    open spec fn deep_view(&self) -> PlanStepView {
        self@
    }
}

/// How to provision one hook.
#[derive(Debug)]
pub struct InstallPlan {
    /// The install root of the hook.
    pub root: String,
    /// Where the executable must be once the hook is installed.
    pub target: String,
    /// A directory to create before the first step, if any.
    pub prepare: Option<String>,
    /// What to do, in order, where the executable is not there yet.
    pub steps: Vec<PlanStep>,
}

/// The mathematical content of an [`InstallPlan`].
pub struct PlanView {
    pub root: Seq<char>,
    pub target: Seq<char>,
    pub prepare: Option<Seq<char>>,
    pub steps: Seq<PlanStepView>,
}

impl View for InstallPlan {
    type V = PlanView;

    open spec fn view(&self) -> PlanView {
        PlanView {
            root: self.root@,
            target: self.target@,
            prepare: self.prepare.deep_view(),
            steps: self.steps.deep_view(),
        }
    }
}

/// What the caller found out about the machine before planning.
#[derive(Debug)]
pub struct InstallEnv {
    /// The working root, under which the tools directory lies.
    pub root: String,
    /// The name of the package manager's executable for node hooks.
    pub npm: String,
    /// Whether the virtual environments of this platform keep their
    /// executables in `Scripts` and name the interpreter `python.exe`.
    pub windows: bool,
}

/// The mathematical content of an [`InstallEnv`].
pub struct EnvView {
    pub root: Seq<char>,
    pub npm: Seq<char>,
    pub windows: bool,
}

impl View for InstallEnv {
    type V = EnvView;

    open spec fn view(&self) -> EnvView {
        EnvView { root: self.root@, npm: self.npm@, windows: self.windows }
    }
}

/// The path of `name` inside the directory `dir`: the two with a separator
/// between them. A directory that is empty or ends with a separator gets no
/// further one.
pub open spec fn path_join(dir: Seq<char>, name: Seq<char>) -> Seq<char> {
    if dir.len() == 0 || dir.last() == '/' {
        dir + name
    } else {
        dir + "/"@ + name
    }
}

/// Executable form of [`path_join`].
pub fn join_path(dir: &str, name: &str) -> (out: String)
    ensures
        out@ == path_join(dir@, name@),
{
    let chars = chars_of(dir);
    let n = chars.len();
    if n == 0 || chars[n - 1] == '/' {
        joined(dir, name)
    } else {
        joined3(dir, "/", name)
    }
}

/// A root as the head of the paths below it: with a separator at its end,
/// unless it is empty.
pub open spec fn root_head(root: Seq<char>) -> Seq<char> {
    path_join(root, Seq::empty())
}

/// Joining below a directory that has a head: the head stays in front.
pub proof fn lemma_join_below(head: Seq<char>, dir: Seq<char>, name: Seq<char>)
    requires
        dir.len() > 0,
    ensures
        path_join(head + dir, name) == head + path_join(dir, name),
        path_join(dir, name).len() > 0,
        path_join(dir, name)[0] == dir[0],
{
    assert((head + dir).last() == dir.last());
    if dir.last() == '/' {
        assert((head + dir) + name =~= head + (dir + name));
    } else {
        assert((head + dir) + "/"@ + name =~= head + (dir + "/"@ + name));
    }
}

/// The install root of a hook: `<root>/.precommit-tools/<hook-id>`.
pub open spec fn tool_dir(root: Seq<char>, hook_id: Seq<char>) -> Seq<char> {
    path_join(path_join(root, ".precommit-tools"@), hook_id)
}

/// Executable form of [`tool_dir`].
pub fn tool_root(root: &str, hook_id: &str) -> (out: String)
    ensures
        out@ == tool_dir(root@, hook_id@),
{
    let tools = join_path(root, ".precommit-tools");
    join_path(tools.as_str(), hook_id)
}

/// The directory of a virtual environment that holds its executables.
pub open spec fn venv_bin_dir(venv: Seq<char>, windows: bool) -> Seq<char> {
    path_join(
        venv,
        if windows {
            "Scripts"@
        } else {
            "bin"@
        },
    )
}

/// The directory of the virtual environment `venv` that holds its
/// executables.
pub fn python_bin_dir(venv: &str, windows: bool) -> (out: String)
    ensures
        out@ == venv_bin_dir(venv@, windows),
{
    if windows {
        join_path(venv, "Scripts")
    } else {
        join_path(venv, "bin")
    }
}

/// Where the native toolchain puts the binary of a hook, `dir` being the
/// install root of the hook: `<dir>/bin/<binary-name>`.
pub open spec fn rust_target(hook: HookView, install: InstallView, dir: Seq<char>) -> Seq<char> {
    path_join(path_join(dir, "bin"@), install.binary_name(hook.id))
}

/// Where the virtual environment of a hook holds its entry point:
/// `<dir>/venv/<bin-dir>/<entry-name>`.
pub open spec fn python_target(hook: HookView, install: InstallView, dir: Seq<char>, windows: bool)
    -> Seq<char> {
    path_join(venv_bin_dir(path_join(dir, "venv"@), windows), install.entry_name(hook.id))
}

/// Where the package manager links the entry point of a hook:
/// `<dir>/node_modules/.bin/<entry-name>`.
pub open spec fn node_target(hook: HookView, install: InstallView, dir: Seq<char>) -> Seq<char> {
    path_join(
        path_join(path_join(dir, "node_modules"@), ".bin"@),
        install.entry_name(hook.id),
    )
}

/// Where the module installer puts the entry point of a hook:
/// `<dir>/bin/<entry-name>`.
pub open spec fn go_target(hook: HookView, install: InstallView, dir: Seq<char>) -> Seq<char> {
    path_join(path_join(dir, "bin"@), install.entry_name(hook.id))
}

/// A flag and its value, where the value is there.
pub open spec fn flag_with(flag: Seq<char>, value: Option<Seq<char>>) -> Seq<Seq<char>> {
    match value {
        Some(v) => seq![flag, v],
        None => Seq::empty(),
    }
}

/// The texts of an optional list.
pub open spec fn listed(list: Option<Seq<Seq<char>>>) -> Seq<Seq<char>> {
    match list {
        Some(l) => l,
        None => Seq::empty(),
    }
}

/// An optional text as a list of at most one.
pub open spec fn single(value: Option<Seq<char>>) -> Seq<Seq<char>> {
    match value {
        Some(v) => seq![v],
        None => Seq::empty(),
    }
}

/// The environment overrides of an install spec.
pub open spec fn overrides(install: InstallView) -> Seq<(Seq<char>, Seq<char>)> {
    match install.env {
        Some(e) => e,
        None => Seq::empty(),
    }
}

/// The arguments of the native-toolchain installer: a forced install into
/// the hook's root, from the repository if one is given; the version pin
/// only for a named package without a repository; the extra arguments
/// before the package.
pub open spec fn rust_args(install: InstallView, dir: Seq<char>) -> Seq<Seq<char>> {
    seq!["install"@, "--force"@, "--root"@, dir] + flag_with("--git"@, install.repo) + flag_with(
        "--bin"@,
        install.binary,
    ) + (if install.package is Some && install.repo is None {
        flag_with("--version"@, install.version)
    } else {
        Seq::empty()
    }) + listed(install.install_args) + single(install.package)
}

/// The steps that install a hook through the native toolchain.
pub open spec fn rust_steps(install: InstallView, dir: Seq<char>) -> Seq<PlanStepView> {
    if install.repo_or_package() is None {
        seq![PlanStepView::Fail(InstallError::MissingTarget)]
    } else {
        seq![
            PlanStepView::Run(
                CommandView {
                    label: "cargo install"@,
                    program: "cargo"@,
                    args: rust_args(install, dir),
                    env: overrides(install),
                    working_dir: None,
                },
            ),
        ]
    }
}

/// What the package installer of a virtual environment is asked for: the
/// package, pinned as `name==version` unless the name already holds a pin;
/// else the repository as a VCS reference.
pub open spec fn python_requirement(install: InstallView) -> Option<Seq<char>> {
    match install.package {
        Some(p) => match install.version {
            Some(v) => if has_pair(p, '=', '=') {
                Some(p)
            } else {
                Some(p + "=="@ + v)
            },
            None => Some(p),
        },
        None => match install.repo {
            Some(r) => Some("git+"@ + r),
            None => None,
        },
    }
}

/// The steps that install a hook into a virtual environment: create the
/// environment, then install the requirement with its interpreter. Where
/// there is nothing to install, neither a package nor a repository, the
/// plan is the failure alone and no environment is created.
pub open spec fn python_steps(install: InstallView, dir: Seq<char>, windows: bool) -> Seq<
    PlanStepView,
> {
    let venv = path_join(dir, "venv"@);
    let interpreter = path_join(
        venv_bin_dir(venv, windows),
        if windows {
            "python.exe"@
        } else {
            "python"@
        },
    );
    match python_requirement(install) {
        Some(requirement) => seq![
            PlanStepView::Run(
                CommandView {
                    label: "uv venv"@,
                    program: "uv"@,
                    args: seq!["venv"@, venv],
                    env: overrides(install),
                    working_dir: None,
                },
            ),
            PlanStepView::Run(
                CommandView {
                    label: "uv pip install"@,
                    program: "uv"@,
                    args: seq!["pip"@, "install"@, "--python"@, interpreter, "--no-cache"@]
                        + listed(install.install_args) + seq![requirement],
                    env: overrides(install),
                    working_dir: None,
                },
            ),
        ],
        None => seq![PlanStepView::Fail(InstallError::MissingTarget)],
    }
}

/// What the package manager is asked for: `name@version` where a package
/// and a version are given, else the package, else the repository.
pub open spec fn node_requirement(install: InstallView) -> Option<Seq<char>> {
    match install.package {
        Some(p) => match install.version {
            Some(v) => Some(p + "@"@ + v),
            None => Some(p),
        },
        None => install.repo,
    }
}

/// The steps that install a hook with the package manager, into the
/// hook's private prefix.
pub open spec fn node_steps(install: InstallView, dir: Seq<char>, npm: Seq<char>) -> Seq<
    PlanStepView,
> {
    match node_requirement(install) {
        Some(requirement) => seq![
            PlanStepView::Run(
                CommandView {
                    label: "npm install"@,
                    program: npm,
                    args: seq!["install"@, "--prefix"@, dir] + listed(install.install_args)
                        + seq![requirement],
                    env: overrides(install),
                    working_dir: None,
                },
            ),
        ],
        None => seq![PlanStepView::Fail(InstallError::MissingTarget)],
    }
}

/// The module to install: `package@version` where a version is pinned, the
/// package itself where it embeds a version, and an error where there is
/// no package or no version to be had.
pub open spec fn go_requirement(install: InstallView) -> Result<Seq<char>, InstallError> {
    match install.package {
        None => Err(InstallError::MissingPackage),
        Some(p) => match install.version {
            Some(v) => Ok(p + "@"@ + v),
            None => if has_char(p, '@') {
                Ok(p)
            } else {
                Err(InstallError::MissingVersion)
            },
        },
    }
}

/// The steps that install a hook with the module installer, whose
/// destination is redirected to the hook's `bin` directory.
pub open spec fn go_steps(install: InstallView, dir: Seq<char>) -> Seq<PlanStepView> {
    match go_requirement(install) {
        Ok(requirement) => seq![
            PlanStepView::Run(
                CommandView {
                    label: "go install"@,
                    program: "go"@,
                    args: seq!["install"@] + listed(install.install_args) + seq![requirement],
                    env: overrides(install).push(("GOBIN"@, path_join(dir, "bin"@))),
                    working_dir: None,
                },
            ),
        ],
        Err(e) => seq![PlanStepView::Fail(e)],
    }
}

/// The plan by which a hook is provisioned through the native toolchain.
pub open spec fn rust_plan(hook: HookView, install: InstallView, env: EnvView) -> PlanView {
    let dir = tool_dir(env.root, hook.id);
    PlanView {
        root: dir,
        target: rust_target(hook, install, dir),
        prepare: None,
        steps: rust_steps(install, dir),
    }
}

/// The plan by which a hook is provisioned in a virtual environment.
pub open spec fn python_plan(hook: HookView, install: InstallView, env: EnvView) -> PlanView {
    let dir = tool_dir(env.root, hook.id);
    PlanView {
        root: dir,
        target: python_target(hook, install, dir, env.windows),
        prepare: Some(dir),
        steps: python_steps(install, dir, env.windows),
    }
}

/// The plan by which a hook is provisioned with the package manager.
pub open spec fn node_plan(hook: HookView, install: InstallView, env: EnvView) -> PlanView {
    let dir = tool_dir(env.root, hook.id);
    PlanView {
        root: dir,
        target: node_target(hook, install, dir),
        prepare: Some(dir),
        steps: node_steps(install, dir, env.npm),
    }
}

/// The plan by which a hook is provisioned with the module installer.
pub open spec fn go_plan(hook: HookView, install: InstallView, env: EnvView) -> PlanView {
    let dir = tool_dir(env.root, hook.id);
    PlanView {
        root: dir,
        target: go_target(hook, install, dir),
        prepare: Some(path_join(dir, "bin"@)),
        steps: go_steps(install, dir),
    }
}

/// The plan by which a hook is provisioned: that of the ecosystem which
/// its install spec names.
pub open spec fn plan_of(hook: HookView, install: InstallView, env: EnvView) -> PlanView {
    match install.language {
        InstallLanguage::Rust => rust_plan(hook, install, env),
        InstallLanguage::Python => python_plan(hook, install, env),
        InstallLanguage::Node => node_plan(hook, install, env),
        InstallLanguage::Go => go_plan(hook, install, env),
    }
}

/// The environment overrides of an install spec, copied.
fn env_of(install: &InstallConfig) -> (out: Vec<(String, String)>)
    ensures
        out.deep_view() == overrides(install@),
{
    match &install.env {
        Some(e) => copy_pairs(e),
        None => {
            let out: Vec<(String, String)> = Vec::new();
            proof {
                assert(out.deep_view() =~= Seq::empty());
            }
            out
        },
    }
}

/// Appends the extra installer arguments of the install spec.
fn push_extra(args: &mut Vec<String>, install: &InstallConfig)
    ensures
        final(args).deep_view() == old(args).deep_view() + listed(install@.install_args),
{
    match &install.install_args {
        Some(extra) => {
            extend_texts(args, extra.as_slice());
        },
        None => {
            proof {
                assert(args.deep_view() + Seq::<Seq<char>>::empty() =~= args.deep_view());
            }
        },
    }
}

/// Appends `flag` and the value, where the value is there.
fn push_flag(args: &mut Vec<String>, flag: &str, value: &Option<String>)
    ensures
        final(args).deep_view() == old(args).deep_view() + flag_with(flag@, value.deep_view()),
{
    match value {
        Some(v) => {
            push_text(args, flag);
            push_text(args, v.as_str());
            proof {
                assert(args.deep_view() =~= old(args).deep_view() + seq![flag@, v@]);
            }
        },
        None => {
            proof {
                assert(args.deep_view() + Seq::<Seq<char>>::empty() =~= args.deep_view());
            }
        },
    }
}

/// A list of texts that holds nothing yet.
fn no_texts() -> (out: Vec<String>)
    ensures
        out.deep_view() == Seq::<Seq<char>>::empty(),
{
    let out: Vec<String> = Vec::new();
    proof {
        assert(out.deep_view() =~= Seq::<Seq<char>>::empty());
    }
    out
}

/// A plan of the given parts.
fn plan_with(root: String, target: String, prepare: Option<String>, steps: Vec<PlanStep>) -> (out:
    InstallPlan)
    ensures
        out@ == (PlanView {
            root: root@,
            target: target@,
            prepare: prepare.deep_view(),
            steps: steps.deep_view(),
        }),
{
    InstallPlan { root, target, prepare, steps }
}

/// A list of the one step.
fn one_step(step: PlanStep) -> (out: Vec<PlanStep>)
    ensures
        out.deep_view() == seq![step@],
{
    let mut out: Vec<PlanStep> = Vec::new();
    out.push(step);
    proof {
        assert(out.deep_view() =~= seq![step@]);
    }
    out
}

/// Plans the installation of a hook through the native toolchain: the
/// binary lies at `<root>/bin/<binary-name>`.
pub fn install_rust(hook: &HookConfig, install: &InstallConfig, env: &InstallEnv) -> (plan:
    InstallPlan)
    ensures
        plan@ == rust_plan(hook@, install@, env@),
{
    let dir = tool_root(env.root.as_str(), hook.id.as_str());
    let bin = join_path(dir.as_str(), "bin");
    let target = join_path(bin.as_str(), install.binary(hook.id.as_str()));
    let step = if install.repo.is_none() && install.package.is_none() {
        PlanStep::Fail(InstallError::MissingTarget)
    } else {
        let mut args = no_texts();
        push_text(&mut args, "install");
        push_text(&mut args, "--force");
        push_text(&mut args, "--root");
        push_text(&mut args, dir.as_str());
        proof {
            assert(args.deep_view() =~= seq!["install"@, "--force"@, "--root"@, dir@]);
        }
        push_flag(&mut args, "--git", &install.repo);
        push_flag(&mut args, "--bin", &install.binary);
        if install.package.is_some() && install.repo.is_none() {
            push_flag(&mut args, "--version", &install.version);
        } else {
            proof {
                assert(args.deep_view() + Seq::<Seq<char>>::empty() =~= args.deep_view());
            }
        }
        push_extra(&mut args, install);
        match &install.package {
            Some(p) => {
                push_text(&mut args, p.as_str());
                proof {
                    assert(args.deep_view() =~= rust_args(install@, dir@));
                }
            },
            None => {
                proof {
                    assert(args.deep_view() =~= rust_args(install@, dir@));
                }
            },
        }
        PlanStep::Run(
            CommandSpec {
                label: String::from_str("cargo install"),
                program: String::from_str("cargo"),
                args,
                env: env_of(install),
                working_dir: None,
            },
        )
    };
    plan_with(dir, target, None, one_step(step))
}

/// Plans the installation of a hook into a virtual environment: the entry
/// point lies at `<root>/venv/<bin-dir>/<entry-name>`.
pub fn install_python(hook: &HookConfig, install: &InstallConfig, env: &InstallEnv) -> (plan:
    InstallPlan)
    ensures
        plan@ == python_plan(hook@, install@, env@),
{
    let dir = tool_root(env.root.as_str(), hook.id.as_str());
    let venv = join_path(dir.as_str(), "venv");
    let bin = python_bin_dir(venv.as_str(), env.windows);
    let target = join_path(bin.as_str(), install.entry(hook.id.as_str()));
    let interpreter = if env.windows {
        join_path(bin.as_str(), "python.exe")
    } else {
        join_path(bin.as_str(), "python")
    };
    let requirement: Option<String> = match &install.package {
        Some(p) => match &install.version {
            Some(v) => {
                let chars = chars_of(p.as_str());
                if contains_pair(chars.as_slice(), '=', '=') {
                    Some(p.clone())
                } else {
                    Some(joined3(p.as_str(), "==", v.as_str()))
                }
            },
            None => Some(p.clone()),
        },
        None => match &install.repo {
            Some(r) => Some(joined("git+", r.as_str())),
            None => None,
        },
    };
    assert(requirement.deep_view() == python_requirement(install@));
    let steps = match requirement {
        None => one_step(PlanStep::Fail(InstallError::MissingTarget)),
        Some(r) => {
            let mut venv_args = no_texts();
            push_text(&mut venv_args, "venv");
            push_text(&mut venv_args, venv.as_str());
            proof {
                assert(venv_args.deep_view() =~= seq!["venv"@, venv@]);
            }
            let create = PlanStep::Run(
                CommandSpec {
                    label: String::from_str("uv venv"),
                    program: String::from_str("uv"),
                    args: venv_args,
                    env: env_of(install),
                    working_dir: None,
                },
            );
            let mut args = no_texts();
            push_text(&mut args, "pip");
            push_text(&mut args, "install");
            push_text(&mut args, "--python");
            push_text(&mut args, interpreter.as_str());
            push_text(&mut args, "--no-cache");
            proof {
                assert(args.deep_view() =~= seq![
                    "pip"@,
                    "install"@,
                    "--python"@,
                    interpreter@,
                    "--no-cache"@,
                ]);
            }
            push_extra(&mut args, install);
            push_text(&mut args, r.as_str());
            proof {
                assert(args.deep_view() =~= seq![
                    "pip"@,
                    "install"@,
                    "--python"@,
                    interpreter@,
                    "--no-cache"@,
                ] + listed(install@.install_args) + seq![r@]);
            }
            let fetch = PlanStep::Run(
                CommandSpec {
                    label: String::from_str("uv pip install"),
                    program: String::from_str("uv"),
                    args,
                    env: env_of(install),
                    working_dir: None,
                },
            );
            let mut steps: Vec<PlanStep> = Vec::new();
            let ghost first = create@;
            let ghost second = fetch@;
            steps.push(create);
            steps.push(fetch);
            proof {
                assert(steps.deep_view() =~= seq![first, second]);
                let expected = python_steps(install@, dir@, env@.windows);
                assert(venv@ == path_join(dir@, "venv"@));
                assert(bin@ == venv_bin_dir(venv@, env@.windows));
                assert(first == expected[0]);
                assert(second == expected[1]);
                assert(steps.deep_view() =~= expected);
            }
            steps
        },
    };
    let prepare = Some(dir.clone());
    plan_with(dir, target, prepare, steps)
}

/// Plans the installation of a hook with the package manager: the entry
/// point lies at `<root>/node_modules/.bin/<entry-name>`.
pub fn install_node(hook: &HookConfig, install: &InstallConfig, env: &InstallEnv) -> (plan:
    InstallPlan)
    ensures
        plan@ == node_plan(hook@, install@, env@),
{
    let dir = tool_root(env.root.as_str(), hook.id.as_str());
    let modules = join_path(dir.as_str(), "node_modules");
    let bin = join_path(modules.as_str(), ".bin");
    let target = join_path(bin.as_str(), install.entry(hook.id.as_str()));
    let requirement: Option<String> = match &install.package {
        Some(p) => match &install.version {
            Some(v) => Some(joined3(p.as_str(), "@", v.as_str())),
            None => Some(p.clone()),
        },
        None => match &install.repo {
            Some(r) => Some(r.clone()),
            None => None,
        },
    };
    assert(requirement.deep_view() == node_requirement(install@));
    let step = match requirement {
        Some(r) => {
            let mut args = no_texts();
            push_text(&mut args, "install");
            push_text(&mut args, "--prefix");
            push_text(&mut args, dir.as_str());
            proof {
                assert(args.deep_view() =~= seq!["install"@, "--prefix"@, dir@]);
            }
            push_extra(&mut args, install);
            push_text(&mut args, r.as_str());
            proof {
                assert(args.deep_view() =~= seq!["install"@, "--prefix"@, dir@] + listed(
                    install@.install_args,
                ) + seq![r@]);
            }
            PlanStep::Run(
                CommandSpec {
                    label: String::from_str("npm install"),
                    program: env.npm.clone(),
                    args,
                    env: env_of(install),
                    working_dir: None,
                },
            )
        },
        None => PlanStep::Fail(InstallError::MissingTarget),
    };
    let prepare = Some(dir.clone());
    plan_with(dir, target, prepare, one_step(step))
}

/// Plans the installation of a hook with the module installer: the entry
/// point lies at `<root>/bin/<entry-name>`. A module needs a version, from
/// the pin or from the package reference; there is no "latest".
pub fn install_go(hook: &HookConfig, install: &InstallConfig, env: &InstallEnv) -> (plan:
    InstallPlan)
    ensures
        plan@ == go_plan(hook@, install@, env@),
{
    let dir = tool_root(env.root.as_str(), hook.id.as_str());
    let bin = join_path(dir.as_str(), "bin");
    let target = join_path(bin.as_str(), install.entry(hook.id.as_str()));
    let requirement: Result<String, InstallError> = match &install.package {
        None => Err(InstallError::MissingPackage),
        Some(p) => match &install.version {
            Some(v) => Ok(joined3(p.as_str(), "@", v.as_str())),
            None => {
                let chars = chars_of(p.as_str());
                let n = chars.len();
                let at = find_char(chars.as_slice(), 0, n, '@');
                proof {
                    assert(chars@.subrange(0, n as int) =~= p@);
                }
                if at < n {
                    Ok(p.clone())
                } else {
                    Err(InstallError::MissingVersion)
                }
            },
        },
    };
    assert(match requirement {
        Ok(r) => go_requirement(install@) == Ok::<Seq<char>, InstallError>(r@),
        Err(e) => go_requirement(install@) == Err::<Seq<char>, InstallError>(e),
    });
    let step = match requirement {
        Ok(r) => {
            let mut args = no_texts();
            push_text(&mut args, "install");
            proof {
                assert(args.deep_view() =~= seq!["install"@]);
            }
            push_extra(&mut args, install);
            push_text(&mut args, r.as_str());
            proof {
                assert(args.deep_view() =~= seq!["install"@] + listed(install@.install_args)
                    + seq![r@]);
            }
            let mut vars = env_of(install);
            let ghost before = vars.deep_view();
            vars.push((String::from_str("GOBIN"), bin.clone()));
            proof {
                assert(vars.deep_view() =~= before.push(("GOBIN"@, bin@)));
            }
            PlanStep::Run(
                CommandSpec {
                    label: String::from_str("go install"),
                    program: String::from_str("go"),
                    args,
                    env: vars,
                    working_dir: None,
                },
            )
        },
        Err(e) => PlanStep::Fail(e),
    };
    let prepare = Some(bin);
    plan_with(dir, target, prepare, one_step(step))
}

/// Plans the installation of a hook by the ecosystem of its install spec.
pub fn install_plan(hook: &HookConfig, install: &InstallConfig, env: &InstallEnv) -> (plan:
    InstallPlan)
    ensures
        plan@ == plan_of(hook@, install@, env@),
{
    match install.language {
        InstallLanguage::Rust => install_rust(hook, install, env),
        InstallLanguage::Python => install_python(hook, install, env),
        InstallLanguage::Node => install_node(hook, install, env),
        InstallLanguage::Go => install_go(hook, install, env),
    }
}

/// A module reference without a version, and no pin: the plan holds no
/// command at all, only the error, so that nothing is ever started.
pub proof fn lemma_go_needs_version(hook: HookView, install: InstallView, env: EnvView)
    requires
        install.language == InstallLanguage::Go,
        install.version is None,
        install.package matches Some(p) && !has_char(p, '@'),
    ensures
        plan_of(hook, install, env).steps == seq![
            PlanStepView::Fail(InstallError::MissingVersion),
        ],
{
}

/// Whatever the install spec, a plan holds at least one step, and at most
/// two.
pub proof fn lemma_plan_steps(hook: HookView, install: InstallView, env: EnvView)
    ensures
        1 <= plan_of(hook, install, env).steps.len() <= 2,
{
}

/// Whether a plan starts a process.
pub open spec fn starts_process(plan: PlanView) -> bool {
    exists|k: int| 0 <= k < plan.steps.len() && (#[trigger] plan.steps[k]) is Run
}

/// An install spec that names neither a package nor a repository is a
/// configuration error in every ecosystem: the plan is the failure alone,
/// and holds no command.
pub proof fn lemma_nothing_to_install(hook: HookView, install: InstallView, env: EnvView)
    requires
        install.package is None,
        install.repo is None,
    ensures
        plan_of(hook, install, env).steps == seq![
            PlanStepView::Fail(
                if install.language == InstallLanguage::Go {
                    InstallError::MissingPackage
                } else {
                    InstallError::MissingTarget
                },
            ),
        ],
        !starts_process(plan_of(hook, install, env)),
{
    let plan = plan_of(hook, install, env);
    assert(plan.steps.len() == 1);
    assert(plan.steps[0] is Fail);
}

} // verus!
