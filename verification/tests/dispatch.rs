use precommit_rs::config::{HookConfig, InstallConfig, InstallLanguage, PreCommitConfig, RepoConfig};
use precommit_rs::dispatch::{
    builtin_hook, run_config, run_external_command, Builtin, RunAction, RunError, RunEvent,
    RunNote, RunState,
};
use precommit_rs::install::InstallError;
use precommit_rs::matcher::Candidate;
use precommit_rs::RunContext;

fn manifest(hooks: Vec<HookConfig>) -> PreCommitConfig {
    PreCommitConfig {
        repos: Some(vec![RepoConfig { repo: "local".to_string(), rev: None, hooks }]),
    }
}

fn hook(id: &str) -> HookConfig {
    HookConfig::new(id.to_string())
}

fn file(path: &str) -> Candidate {
    Candidate { is_file: true, path: path.to_string(), relative: path.to_string() }
}

#[test]
fn builtin_hooks_are_known_by_their_ids() {
    assert_eq!(builtin_hook("trailing-whitespace"), Some(Builtin::TrailingWhitespace));
    assert_eq!(builtin_hook("end-of-file-fixer"), Some(Builtin::EndOfFileFixer));
    assert_eq!(builtin_hook("check-yaml"), Some(Builtin::CheckYaml));
    assert_eq!(builtin_hook("pretty-format-json"), Some(Builtin::PrettyFormatJson));
    assert_eq!(builtin_hook("check-added-large-files"), Some(Builtin::CheckAddedLargeFiles));
    assert_eq!(builtin_hook("ruff"), None);
}

#[test]
fn a_manifest_without_local_hooks_fails() {
    let mut ctx = RunContext::default();
    let cfg = PreCommitConfig { repos: None };
    let step = run_config(&mut ctx, &cfg, RunState::Start, RunEvent::Begin);
    assert!(matches!(step.action, RunAction::Fail(RunError::NoLocalHooks)));
    assert!(matches!(step.state, RunState::Finished));
}

#[test]
fn disabled_hooks_are_passed_over() {
    let mut off = hook("end-of-file-fixer");
    off.enabled = Some(false);
    let mut ctx = RunContext::default();
    let step = run_config(&mut ctx, &manifest(vec![off]), RunState::Start, RunEvent::Begin);
    assert!(matches!(step.action, RunAction::Done));
    assert_eq!(step.notes, vec![RunNote::Disabled(0)]);
    assert!(!ctx.changelog.has_changes());
}

#[test]
fn a_hook_with_a_pattern_asks_for_a_walk_and_selects_its_files() {
    let mut h = hook("end-of-file-fixer");
    h.files = Some("**/*.{rs,py}".to_string());
    let cfg = manifest(vec![h]);
    let mut ctx = RunContext::default();
    let step = run_config(&mut ctx, &cfg, RunState::Start, RunEvent::Begin);
    assert!(matches!(step.action, RunAction::Walk));
    assert!(matches!(step.state, RunState::Walking(0)));
    let walked = RunEvent::Walked(vec![file("./a.rs"), file("./b.py"), file("./c.txt")]);
    let step = run_config(&mut ctx, &cfg, step.state, walked);
    match step.action {
        RunAction::Builtin { hook, paths, max_bytes } => {
            assert_eq!(hook, Builtin::EndOfFileFixer);
            assert_eq!(paths, vec!["./a.rs", "./b.py"]);
            assert_eq!(max_bytes, None);
        }
        other => panic!("unexpected action {:?}", other),
    }
    assert!(matches!(step.state, RunState::Executing(0)));
    assert_eq!(ctx.changelog.add_entry("end-of-file-fixer").files_checked, vec!["./a.rs", "./b.py"]);
    let step = run_config(&mut ctx, &cfg, step.state, RunEvent::BuiltinDone(false));
    assert!(matches!(step.action, RunAction::Done));
}

#[test]
fn a_hook_whose_pattern_matches_nothing_is_skipped() {
    let mut first = hook("check-yaml");
    first.files = Some("*.yaml".to_string());
    let second = hook("check-added-large-files");
    let cfg = manifest(vec![first, second]);
    let mut ctx = RunContext::default();
    let step = run_config(&mut ctx, &cfg, RunState::Start, RunEvent::Begin);
    let step = run_config(&mut ctx, &cfg, step.state, RunEvent::Walked(vec![file("a.rs")]));
    assert_eq!(step.notes, vec![RunNote::NoFiles(0)]);
    match step.action {
        RunAction::Builtin { hook, paths, max_bytes } => {
            assert_eq!(hook, Builtin::CheckAddedLargeFiles);
            assert_eq!(paths, vec!["."]);
            assert_eq!(max_bytes, None);
        }
        other => panic!("unexpected action {:?}", other),
    }
    assert!(matches!(step.state, RunState::Executing(1)));
}

#[test]
fn the_size_limit_is_the_first_argument_where_it_is_a_number() {
    for (args, expected) in [
        (Some(vec!["500000"]), Some(500000u64)),
        (Some(vec!["12", "99"]), Some(12)),
        (Some(vec!["lots"]), None),
        (Some(vec![]), None),
        (None, None),
    ] {
        let mut h = hook("check-added-large-files");
        h.args = args.map(|a| a.into_iter().map(|s: &str| s.to_string()).collect());
        let mut ctx = RunContext::default();
        let step = run_config(&mut ctx, &manifest(vec![h]), RunState::Start, RunEvent::Begin);
        assert!(matches!(step.action, RunAction::Builtin { max_bytes, .. } if max_bytes == expected));
    }
}

#[test]
fn an_invalid_pattern_ends_the_run() {
    let mut h = hook("check-yaml");
    h.files = Some("a**".to_string());
    let mut ctx = RunContext::default();
    let step = run_config(&mut ctx, &manifest(vec![h]), RunState::Start, RunEvent::Begin);
    assert!(matches!(step.state, RunState::Finished));
    assert!(matches!(step.action, RunAction::Fail(RunError::InvalidPattern(_))));
}

#[test]
fn an_unknown_hook_is_reported_and_skipped() {
    let cfg = manifest(vec![hook("mystery"), hook("check-yaml")]);
    let mut ctx = RunContext::default();
    let step = run_config(&mut ctx, &cfg, RunState::Start, RunEvent::Begin);
    assert_eq!(step.notes, vec![RunNote::Unknown(0)]);
    assert!(matches!(step.action, RunAction::Builtin { hook: Builtin::CheckYaml, .. }));
    assert_eq!(ctx.changelog.add_entry("mystery").files_checked, vec!["."]);
}

#[test]
fn a_command_given_by_path_is_run_directly() {
    let mut h = hook("lint");
    h.command = Some("./tools/lint".to_string());
    h.args = Some(vec!["--fix".to_string()]);
    h.working_dir = Some("sub".to_string());
    let mut i = InstallConfig::new(InstallLanguage::Rust);
    i.env = Some(vec![("K".to_string(), "V".to_string())]);
    h.install = Some(i);
    let cfg = manifest(vec![h]);
    let mut ctx = RunContext::default();
    let step = run_config(&mut ctx, &cfg, RunState::Start, RunEvent::Begin);
    match &step.action {
        RunAction::Spawn(c) => {
            assert_eq!(c.program, "./tools/lint");
            assert_eq!(c.args, vec!["--fix", "."]);
            assert_eq!(c.working_dir, Some("sub".to_string()));
            assert_eq!(c.env, vec![("K".to_string(), "V".to_string())]);
        }
        other => panic!("unexpected action {:?}", other),
    }
    assert!(ctx.changelog.has_changes());
    assert_eq!(
        ctx.changelog.add_entry("lint").changes,
        vec!["Ran external command: ./tools/lint"]
    );
    let step = run_config(&mut ctx, &cfg, step.state, RunEvent::Exited(true));
    assert!(matches!(step.action, RunAction::Flush));
    let step = run_config(&mut ctx, &cfg, step.state, RunEvent::Flushed);
    assert!(matches!(step.action, RunAction::Done));
    assert!(matches!(step.state, RunState::Finished));
}

#[test]
fn a_failed_command_ends_the_run() {
    let mut h = hook("lint");
    h.command = Some("lint".to_string());
    let cfg = manifest(vec![h, hook("check-yaml")]);
    let mut ctx = RunContext::default();
    let step = run_config(&mut ctx, &cfg, RunState::Start, RunEvent::Begin);
    let step = run_config(&mut ctx, &cfg, step.state, RunEvent::Exited(false));
    assert!(matches!(step.action, RunAction::Fail(RunError::CommandFailed)));
}

#[test]
fn the_placeholder_command_installs_first() {
    let mut h = hook("ruff");
    h.command = Some("{install}".to_string());
    h.files = Some("*.py".to_string());
    let mut i = InstallConfig::new(InstallLanguage::Python);
    i.package = Some("ruff".to_string());
    h.install = Some(i);
    h.args = Some(vec!["check".to_string()]);
    let cfg = manifest(vec![h]);
    let mut ctx = RunContext::default();
    let step = run_config(&mut ctx, &cfg, RunState::Start, RunEvent::Begin);
    let step = run_config(&mut ctx, &cfg, step.state, RunEvent::Walked(vec![file("a.py")]));
    assert!(matches!(step.action, RunAction::Install(0)));
    assert!(!ctx.changelog.has_changes());
    let installed = RunEvent::Installed(Ok("/work/.precommit-tools/ruff/venv/bin/ruff".to_string()));
    let step = run_config(&mut ctx, &cfg, step.state, installed);
    match &step.action {
        RunAction::Spawn(c) => {
            assert_eq!(c.program, "/work/.precommit-tools/ruff/venv/bin/ruff");
            assert_eq!(c.args, vec!["check", "a.py"]);
        }
        other => panic!("unexpected action {:?}", other),
    }
    assert_eq!(
        ctx.changelog.add_entry("ruff").changes,
        vec!["Ran external command: /work/.precommit-tools/ruff/venv/bin/ruff"]
    );
}

#[test]
fn a_failed_installation_ends_the_run() {
    let mut h = hook("ruff");
    h.command = Some("{install}".to_string());
    let cfg = manifest(vec![h]);
    let mut ctx = RunContext::default();
    let step = run_config(&mut ctx, &cfg, RunState::Start, RunEvent::Begin);
    assert!(matches!(step.action, RunAction::Install(0)));
    let failed = RunEvent::Installed(Err(InstallError::MissingInstall));
    let step = run_config(&mut ctx, &cfg, step.state, failed);
    assert!(matches!(step.action, RunAction::Fail(RunError::Install(InstallError::MissingInstall))));
}

#[test]
fn a_violation_ends_an_enforcing_run_and_not_a_dry_run() {
    let cfg = manifest(vec![hook("check-yaml"), hook("end-of-file-fixer")]);
    let mut ctx = RunContext::default();
    let step = run_config(&mut ctx, &cfg, RunState::Start, RunEvent::Begin);
    let step = run_config(&mut ctx, &cfg, step.state, RunEvent::BuiltinDone(true));
    assert!(matches!(step.action, RunAction::Exit));
    assert!(matches!(step.state, RunState::Finished));
    let mut ctx = RunContext::default();
    ctx.dry_run = true;
    let step = run_config(&mut ctx, &cfg, RunState::Start, RunEvent::Begin);
    let step = run_config(&mut ctx, &cfg, step.state, RunEvent::BuiltinDone(true));
    assert!(matches!(step.action, RunAction::Builtin { hook: Builtin::EndOfFileFixer, .. }));
    assert!(matches!(step.state, RunState::Executing(1)));
}

#[test]
fn hooks_run_in_manifest_order() {
    let mut a = hook("a");
    a.command = Some("first".to_string());
    let mut b = hook("b");
    b.command = Some("second".to_string());
    let cfg = manifest(vec![a, b]);
    let mut ctx = RunContext::default();
    let step = run_config(&mut ctx, &cfg, RunState::Start, RunEvent::Begin);
    assert!(matches!(&step.action, RunAction::Spawn(c) if c.program == "first"));
    let step = run_config(&mut ctx, &cfg, step.state, RunEvent::Exited(true));
    assert!(matches!(&step.action, RunAction::Spawn(c) if c.program == "second"));
    let step = run_config(&mut ctx, &cfg, step.state, RunEvent::Exited(true));
    assert!(matches!(step.action, RunAction::Flush));
}

#[test]
fn an_event_that_was_not_asked_for_ends_the_run() {
    let cfg = manifest(vec![hook("check-yaml")]);
    let mut ctx = RunContext::default();
    let step = run_config(&mut ctx, &cfg, RunState::Finished, RunEvent::Begin);
    assert!(matches!(step.action, RunAction::Fail(RunError::UnexpectedEvent)));
    let step = run_config(&mut ctx, &cfg, RunState::Walking(5), RunEvent::Walked(Vec::new()));
    assert!(matches!(step.action, RunAction::Fail(RunError::UnexpectedEvent)));
    let step = run_config(&mut ctx, &cfg, RunState::Start, RunEvent::Flushed);
    assert!(matches!(step.action, RunAction::Fail(RunError::UnexpectedEvent)));
}

#[test]
fn an_external_command_gets_the_arguments_then_the_files() {
    let mut h = hook("x");
    h.args = Some(vec!["-a".to_string(), "-b".to_string()]);
    let c = run_external_command(&h, "prog", &vec!["f1".to_string(), "f2".to_string()]);
    assert_eq!(c.label, "external command");
    assert_eq!(c.program, "prog");
    assert_eq!(c.args, vec!["-a", "-b", "f1", "f2"]);
    assert!(c.env.is_empty());
    assert_eq!(c.working_dir, None);
}

#[test]
fn disabled_hooks_leave_the_aggregate_untouched() {
    let mut a = hook("end-of-file-fixer");
    a.enabled = Some(false);
    let mut b = hook("lint");
    b.command = Some("lint".to_string());
    b.enabled = Some(false);
    let mut ctx = RunContext::default();
    let step = run_config(&mut ctx, &manifest(vec![a, b]), RunState::Start, RunEvent::Begin);
    assert!(matches!(step.action, RunAction::Done));
    assert_eq!(step.notes, vec![RunNote::Disabled(0), RunNote::Disabled(1)]);
    assert!(!ctx.changelog.has_changes());
    assert_eq!(ctx.changelog.render("T"), "# Pre-commit Changes T\n\n");
    assert!(ctx.changelog.add_entry("end-of-file-fixer").files_checked.is_empty());
}
