use precommit_rs::config::{HookConfig, InstallConfig, InstallLanguage};
use precommit_rs::install::{
    install_go, install_node, install_plan, install_python, install_rust, join_path,
    python_bin_dir, tool_root, CommandSpec, InstallEnv, InstallError, InstallPlan, PlanStep,
};
use precommit_rs::installer::{ensure_installed, InstallAction, InstallEvent, InstallState};

fn env() -> InstallEnv {
    InstallEnv { root: "/work".to_string(), npm: "npm".to_string(), windows: false }
}

fn hook_with(id: &str, install: InstallConfig) -> HookConfig {
    let mut h = HookConfig::new(id.to_string());
    h.command = Some("{install}".to_string());
    h.install = Some(install);
    h
}

fn plan_for(h: &HookConfig, e: &InstallEnv) -> InstallPlan {
    install_plan(h, h.install.as_ref().unwrap(), e)
}

fn only_command(plan: &InstallPlan) -> &CommandSpec {
    assert_eq!(plan.steps.len(), 1);
    match &plan.steps[0] {
        PlanStep::Run(c) => c,
        PlanStep::Fail(e) => panic!("the plan fails with {:?}", e),
    }
}

fn only_error(plan: &InstallPlan) -> InstallError {
    assert_eq!(plan.steps.len(), 1);
    match &plan.steps[0] {
        PlanStep::Run(c) => panic!("the plan runs {:?}", c),
        PlanStep::Fail(e) => *e,
    }
}

/// Drives an installation to its end on a disk that holds `present`, where
/// every command succeeds and creates what `created` names. Returns the
/// commands that were run and the last action.
fn drive(h: &HookConfig, present: &[&str], created: &[&str]) -> (Vec<CommandSpec>, InstallAction) {
    let e = env();
    let mut disk: Vec<String> = present.iter().map(|s| s.to_string()).collect();
    let mut ran = Vec::new();
    let mut state = InstallState::Start;
    let mut event = InstallEvent::Begin;
    for _ in 0..32 {
        let (next, action) = ensure_installed(h, &e, state, event);
        state = next;
        match action {
            InstallAction::CreateDir(_) => event = InstallEvent::DirCreated,
            InstallAction::CheckExists(p) => event = InstallEvent::Exists(disk.contains(&p)),
            InstallAction::Run(c) => {
                ran.push(c);
                for p in created {
                    disk.push(p.to_string());
                }
                event = InstallEvent::Exited(true);
            }
            InstallAction::Record(_) => event = InstallEvent::Recorded,
            done => return (ran, done),
        }
    }
    panic!("the installation does not end");
}

#[test]
fn paths_are_joined_with_a_slash() {
    assert_eq!(join_path("/work", "bin"), "/work/bin");
    assert_eq!(join_path("/work/", "bin"), "/work/bin");
    assert_eq!(join_path("/", "bin"), "/bin");
    assert_eq!(join_path("", "bin"), "bin");
    assert_eq!(tool_root("/", "ruff"), "/.precommit-tools/ruff");
    assert_eq!(tool_root("/work", "ruff"), "/work/.precommit-tools/ruff");
    assert_eq!(python_bin_dir("/v", false), "/v/bin");
    assert_eq!(python_bin_dir("/v", true), "/v/Scripts");
}

#[test]
fn rust_plan_installs_a_package_with_its_version() {
    let mut i = InstallConfig::new(InstallLanguage::Rust);
    i.package = Some("cargo-deny".to_string());
    i.version = Some("0.14".to_string());
    i.binary = Some("cargo-deny".to_string());
    i.install_args = Some(vec!["--locked".to_string()]);
    let h = hook_with("deny", i);
    let plan = install_rust(&h, h.install.as_ref().unwrap(), &env());
    assert_eq!(plan.root, "/work/.precommit-tools/deny");
    assert_eq!(plan.target, "/work/.precommit-tools/deny/bin/cargo-deny");
    assert_eq!(plan.prepare, None);
    let c = only_command(&plan);
    assert_eq!(c.label, "cargo install");
    assert_eq!(c.program, "cargo");
    assert_eq!(
        c.args,
        vec![
            "install", "--force", "--root", "/work/.precommit-tools/deny", "--bin", "cargo-deny",
            "--version", "0.14", "--locked", "cargo-deny",
        ]
    );
    assert!(c.env.is_empty());
    assert_eq!(c.working_dir, None);
}

#[test]
fn rust_plan_installs_from_a_repository_without_the_version() {
    let mut i = InstallConfig::new(InstallLanguage::Rust);
    i.repo = Some("https://example.com/tool.git".to_string());
    i.package = Some("tool".to_string());
    i.version = Some("1.0".to_string());
    let h = hook_with("tool", i);
    let plan = plan_for(&h, &env());
    assert_eq!(plan.target, "/work/.precommit-tools/tool/bin/tool");
    assert_eq!(
        only_command(&plan).args,
        vec![
            "install", "--force", "--root", "/work/.precommit-tools/tool", "--git",
            "https://example.com/tool.git", "tool",
        ]
    );
    let mut i = InstallConfig::new(InstallLanguage::Rust);
    i.repo = Some("https://example.com/tool.git".to_string());
    let h = hook_with("tool", i);
    assert_eq!(
        only_command(&plan_for(&h, &env())).args,
        vec![
            "install", "--force", "--root", "/work/.precommit-tools/tool", "--git",
            "https://example.com/tool.git",
        ]
    );
}

#[test]
fn every_plan_needs_a_package_or_a_repository() {
    let h = hook_with("a", InstallConfig::new(InstallLanguage::Rust));
    assert_eq!(only_error(&plan_for(&h, &env())), InstallError::MissingTarget);
    let h = hook_with("a", InstallConfig::new(InstallLanguage::Node));
    assert_eq!(only_error(&plan_for(&h, &env())), InstallError::MissingTarget);
    let h = hook_with("a", InstallConfig::new(InstallLanguage::Go));
    assert_eq!(only_error(&plan_for(&h, &env())), InstallError::MissingPackage);
    let h = hook_with("a", InstallConfig::new(InstallLanguage::Python));
    assert_eq!(only_error(&plan_for(&h, &env())), InstallError::MissingTarget);
}

#[test]
fn nothing_to_install_fails_before_any_spawn() {
    for (language, error) in [
        (InstallLanguage::Rust, InstallError::MissingTarget),
        (InstallLanguage::Python, InstallError::MissingTarget),
        (InstallLanguage::Node, InstallError::MissingTarget),
        (InstallLanguage::Go, InstallError::MissingPackage),
    ] {
        let mut i = InstallConfig::new(language);
        i.version = Some("1.0".to_string());
        let h = hook_with("tool", i);
        let (ran, last) = drive(&h, &[], &[]);
        assert!(ran.is_empty(), "{:?}", language);
        assert!(matches!(last, InstallAction::Fail(e) if e == error), "{:?}", language);
    }
}

#[test]
fn python_plan_creates_the_environment_and_installs_into_it() {
    let mut i = InstallConfig::new(InstallLanguage::Python);
    i.package = Some("ruff".to_string());
    i.version = Some("0.4.1".to_string());
    i.entry = Some("ruff".to_string());
    i.env = Some(vec![("UV_INDEX".to_string(), "https://example.com".to_string())]);
    let h = hook_with("ruff-check", i);
    let plan = install_python(&h, h.install.as_ref().unwrap(), &env());
    assert_eq!(plan.target, "/work/.precommit-tools/ruff-check/venv/bin/ruff");
    assert_eq!(plan.prepare, Some("/work/.precommit-tools/ruff-check".to_string()));
    assert_eq!(plan.steps.len(), 2);
    match (&plan.steps[0], &plan.steps[1]) {
        (PlanStep::Run(create), PlanStep::Run(fetch)) => {
            assert_eq!(create.program, "uv");
            assert_eq!(create.args, vec!["venv", "/work/.precommit-tools/ruff-check/venv"]);
            assert_eq!(fetch.label, "uv pip install");
            assert_eq!(fetch.program, "uv");
            assert_eq!(
                fetch.args,
                vec![
                    "pip", "install", "--python",
                    "/work/.precommit-tools/ruff-check/venv/bin/python", "--no-cache",
                    "ruff==0.4.1",
                ]
            );
            assert_eq!(fetch.env, vec![("UV_INDEX".to_string(), "https://example.com".to_string())]);
        }
        other => panic!("unexpected steps {:?}", other),
    }
}

#[test]
fn python_requirement_keeps_an_embedded_pin_and_prefixes_a_repository() {
    let mut i = InstallConfig::new(InstallLanguage::Python);
    i.package = Some("ruff==0.3".to_string());
    i.version = Some("0.4".to_string());
    let h = hook_with("r", i);
    let plan = plan_for(&h, &env());
    assert!(matches!(&plan.steps[1], PlanStep::Run(c) if c.args.last().unwrap() == "ruff==0.3"));
    let mut i = InstallConfig::new(InstallLanguage::Python);
    i.package = Some("ruff".to_string());
    let h = hook_with("r", i);
    let plan = plan_for(&h, &env());
    assert!(matches!(&plan.steps[1], PlanStep::Run(c) if c.args.last().unwrap() == "ruff"));
    let mut i = InstallConfig::new(InstallLanguage::Python);
    i.repo = Some("https://example.com/r.git".to_string());
    i.version = Some("0.4".to_string());
    let h = hook_with("r", i);
    let plan = plan_for(&h, &env());
    assert!(matches!(&plan.steps[1], PlanStep::Run(c)
        if c.args.last().unwrap() == "git+https://example.com/r.git"));
}

#[test]
fn python_plan_follows_the_platform() {
    let mut i = InstallConfig::new(InstallLanguage::Python);
    i.package = Some("ruff".to_string());
    let h = hook_with("ruff", i);
    let e = InstallEnv { root: "C:/work".to_string(), npm: "npm".to_string(), windows: true };
    let plan = plan_for(&h, &e);
    assert_eq!(plan.target, "C:/work/.precommit-tools/ruff/venv/Scripts/ruff");
    assert!(matches!(&plan.steps[1], PlanStep::Run(c)
        if c.args[3] == "C:/work/.precommit-tools/ruff/venv/Scripts/python.exe"));
}

#[test]
fn node_plan_installs_into_the_private_prefix() {
    let mut i = InstallConfig::new(InstallLanguage::Node);
    i.package = Some("prettier".to_string());
    i.version = Some("3.2.0".to_string());
    i.install_args = Some(vec!["--no-audit".to_string()]);
    let h = hook_with("prettier", i);
    let e = InstallEnv { root: "/work".to_string(), npm: "pnpm".to_string(), windows: false };
    let plan = install_node(&h, h.install.as_ref().unwrap(), &e);
    assert_eq!(plan.target, "/work/.precommit-tools/prettier/node_modules/.bin/prettier");
    assert_eq!(plan.prepare, Some("/work/.precommit-tools/prettier".to_string()));
    let c = only_command(&plan);
    assert_eq!(c.label, "npm install");
    assert_eq!(c.program, "pnpm");
    assert_eq!(
        c.args,
        vec!["install", "--prefix", "/work/.precommit-tools/prettier", "--no-audit", "prettier@3.2.0"]
    );
    let mut i = InstallConfig::new(InstallLanguage::Node);
    i.repo = Some("github:x/y".to_string());
    i.version = Some("1".to_string());
    let h = hook_with("y", i);
    assert_eq!(only_command(&plan_for(&h, &env())).args.last().unwrap(), "github:x/y");
}

#[test]
fn go_plan_redirects_the_destination_and_pins_the_version() {
    let mut i = InstallConfig::new(InstallLanguage::Go);
    i.package = Some("example.com/tool".to_string());
    i.version = Some("v1.2.3".to_string());
    i.entry = Some("tool".to_string());
    i.env = Some(vec![("GOFLAGS".to_string(), "-mod=mod".to_string())]);
    let h = hook_with("lint", i);
    let plan = install_go(&h, h.install.as_ref().unwrap(), &env());
    assert_eq!(plan.target, "/work/.precommit-tools/lint/bin/tool");
    assert_eq!(plan.prepare, Some("/work/.precommit-tools/lint/bin".to_string()));
    let c = only_command(&plan);
    assert_eq!(c.label, "go install");
    assert_eq!(c.program, "go");
    assert_eq!(c.args, vec!["install", "example.com/tool@v1.2.3"]);
    assert_eq!(
        c.env,
        vec![
            ("GOFLAGS".to_string(), "-mod=mod".to_string()),
            ("GOBIN".to_string(), "/work/.precommit-tools/lint/bin".to_string()),
        ]
    );
}

#[test]
fn go_plan_accepts_a_version_in_the_package_reference() {
    let mut i = InstallConfig::new(InstallLanguage::Go);
    i.package = Some("example.com/tool@latest".to_string());
    let h = hook_with("lint", i);
    assert_eq!(only_command(&plan_for(&h, &env())).args, vec!["install", "example.com/tool@latest"]);
}

#[test]
fn go_module_without_a_version_fails_before_any_spawn() {
    let mut i = InstallConfig::new(InstallLanguage::Go);
    i.package = Some("example.com/tool".to_string());
    let h = hook_with("lint", i);
    assert_eq!(only_error(&plan_for(&h, &env())), InstallError::MissingVersion);
    let (ran, last) = drive(&h, &[], &[]);
    assert!(ran.is_empty());
    assert!(matches!(last, InstallAction::Fail(InstallError::MissingVersion)));
}

#[test]
fn a_hook_without_an_install_spec_fails_at_once() {
    let mut h = HookConfig::new("x".to_string());
    h.command = Some("{install}".to_string());
    let (state, action) = ensure_installed(&h, &env(), InstallState::Start, InstallEvent::Begin);
    assert_eq!(state, InstallState::Finished);
    assert!(matches!(action, InstallAction::Fail(InstallError::MissingInstall)));
}

#[test]
fn a_fresh_install_runs_the_installer_once_and_records_the_binary() {
    let mut i = InstallConfig::new(InstallLanguage::Rust);
    i.package = Some("tool".to_string());
    i.version = Some("1.0".to_string());
    let h = hook_with("tool", i);
    let target = "/work/.precommit-tools/tool/bin/tool";
    let e = env();
    let (s, a) = ensure_installed(&h, &e, InstallState::Start, InstallEvent::Begin);
    assert!(matches!(&a, InstallAction::CreateDir(p) if p == "/work/.precommit-tools/tool"));
    let (s, a) = ensure_installed(&h, &e, s, InstallEvent::DirCreated);
    assert!(matches!(&a, InstallAction::CheckExists(p) if p == target));
    let (s, a) = ensure_installed(&h, &e, s, InstallEvent::Exists(false));
    assert_eq!(s, InstallState::Running(0));
    assert!(matches!(&a, InstallAction::Run(c) if c.program == "cargo"));
    let (s, a) = ensure_installed(&h, &e, s, InstallEvent::Exited(true));
    assert_eq!(s, InstallState::Verifying);
    assert!(matches!(&a, InstallAction::CheckExists(p) if p == target));
    let (s, a) = ensure_installed(&h, &e, s, InstallEvent::Exists(true));
    assert_eq!(s, InstallState::Recording);
    match a {
        InstallAction::Record(r) => {
            assert_eq!(r.id, "tool");
            assert_eq!(r.language, "rust");
            assert_eq!(r.source, Some("package:tool@1.0".to_string()));
            assert_eq!(r.entry, Some("tool".to_string()));
            assert_eq!(r.binary_path, target);
        }
        other => panic!("unexpected action {:?}", other),
    }
    let (s, a) = ensure_installed(&h, &e, s, InstallEvent::Recorded);
    assert_eq!(s, InstallState::Finished);
    assert!(matches!(&a, InstallAction::Done(p) if p == target));
}

#[test]
fn installing_twice_runs_the_installer_once() {
    let mut i = InstallConfig::new(InstallLanguage::Node);
    i.package = Some("prettier".to_string());
    let h = hook_with("prettier", i);
    let target = "/work/.precommit-tools/prettier/node_modules/.bin/prettier";
    let (first, done) = drive(&h, &[], &[target]);
    assert_eq!(first.len(), 1);
    assert!(matches!(&done, InstallAction::Done(p) if p == target));
    let (second, done) = drive(&h, &[target], &[target]);
    assert_eq!(second.len(), 0);
    assert!(matches!(&done, InstallAction::Done(p) if p == target));
}

#[test]
fn a_python_install_runs_both_commands_in_order() {
    let mut i = InstallConfig::new(InstallLanguage::Python);
    i.package = Some("ruff".to_string());
    let h = hook_with("ruff", i);
    let target = "/work/.precommit-tools/ruff/venv/bin/ruff";
    let (ran, done) = drive(&h, &[], &[target]);
    let labels: Vec<&str> = ran.iter().map(|c| c.label.as_str()).collect();
    assert_eq!(labels, vec!["uv venv", "uv pip install"]);
    assert!(matches!(&done, InstallAction::Done(p) if p == target));
}

#[test]
fn a_missing_binary_after_success_is_fatal() {
    let mut i = InstallConfig::new(InstallLanguage::Rust);
    i.package = Some("tool".to_string());
    let h = hook_with("tool", i);
    let (ran, last) = drive(&h, &[], &[]);
    assert_eq!(ran.len(), 1);
    assert!(matches!(last, InstallAction::Fail(InstallError::BinaryMissing)));
    let mut i = InstallConfig::new(InstallLanguage::Go);
    i.package = Some("example.com/tool@v1".to_string());
    let h = hook_with("tool", i);
    let (ran, last) = drive(&h, &[], &[]);
    assert_eq!(ran.len(), 1);
    assert!(matches!(last, InstallAction::Fail(InstallError::NotCreated)));
}

#[test]
fn a_failed_installer_ends_the_installation() {
    let mut i = InstallConfig::new(InstallLanguage::Python);
    i.package = Some("ruff".to_string());
    let h = hook_with("ruff", i);
    let (s, a) = ensure_installed(&h, &env(), InstallState::Running(0), InstallEvent::Exited(false));
    assert_eq!(s, InstallState::Finished);
    assert!(matches!(a, InstallAction::Fail(InstallError::CommandFailed)));
}

#[test]
fn an_event_that_was_not_asked_for_is_refused() {
    let mut i = InstallConfig::new(InstallLanguage::Rust);
    i.package = Some("tool".to_string());
    let h = hook_with("tool", i);
    for (state, event) in [
        (InstallState::Start, InstallEvent::Recorded),
        (InstallState::Probing, InstallEvent::DirCreated),
        (InstallState::Running(7), InstallEvent::Exited(true)),
        (InstallState::Finished, InstallEvent::Begin),
        (InstallState::Recording, InstallEvent::Exists(true)),
    ] {
        let (s, a) = ensure_installed(&h, &env(), state, event);
        assert_eq!(s, InstallState::Finished);
        assert!(matches!(a, InstallAction::Fail(InstallError::UnexpectedEvent)));
    }
}

#[test]
fn the_source_descriptor_prefers_the_package() {
    let cases: Vec<(Option<&str>, Option<&str>, Option<&str>, Option<&str>)> = vec![
        (Some("p"), None, Some("1"), Some("package:p@1")),
        (Some("p"), Some("r"), None, Some("package:p")),
        (None, Some("r"), Some("1"), Some("repo:r@1")),
        (None, Some("r"), None, Some("repo:r")),
        (None, None, Some("1"), None),
    ];
    for (package, repo, version, expected) in cases {
        let mut i = InstallConfig::new(InstallLanguage::Rust);
        i.package = package.map(|s| s.to_string());
        i.repo = repo.map(|s| s.to_string());
        i.version = version.map(|s| s.to_string());
        let h = hook_with("h", i);
        let (_, a) = ensure_installed(&h, &env(), InstallState::Probing, InstallEvent::Exists(true));
        match a {
            InstallAction::Record(r) => assert_eq!(r.source.as_deref(), expected),
            other => panic!("unexpected action {:?}", other),
        }
    }
}

#[test]
fn the_recorded_binary_is_relative_to_any_root() {
    for root in ["/work", "/work/", "/", ""] {
        let mut i = InstallConfig::new(InstallLanguage::Node);
        i.package = Some("prettier".to_string());
        let h = hook_with("prettier", i);
        let e = InstallEnv { root: root.to_string(), npm: "npm".to_string(), windows: false };
        let plan = plan_for(&h, &e);
        assert_eq!(
            precommit_rs::lock::relative_path(&plan.target, root),
            ".precommit-tools/prettier/node_modules/.bin/prettier",
            "root {:?}",
            root
        );
    }
}
