use precommit_rs::config::{
    default_config, HookConfig, InstallConfig, InstallLanguage, PreCommitConfig, RepoConfig,
    DEFAULT_CONFIG,
};

fn hook(id: &str) -> HookConfig {
    HookConfig::new(id.to_string())
}

fn repo(name: &str, hooks: Vec<HookConfig>) -> RepoConfig {
    RepoConfig { repo: name.to_string(), rev: None, hooks }
}

#[test]
fn a_new_hook_has_only_its_id() {
    let h = hook("ruff");
    assert_eq!(h.id(), "ruff");
    assert_eq!(h.name(), None);
    assert_eq!(h.entry(), None);
    assert_eq!(h.language_field(), None);
    assert!(h.stages().is_none());
    assert!(h.additional_dependencies().is_none());
    assert!(h.args().is_none());
    assert_eq!(h.files(), None);
    assert_eq!(h.command(), None);
    assert_eq!(h.working_dir(), None);
    assert!(h.install().is_none());
}

#[test]
fn hooks_are_enabled_unless_switched_off() {
    let mut h = hook("x");
    assert!(h.is_enabled());
    h.enabled = Some(true);
    assert!(h.is_enabled());
    h.enabled = Some(false);
    assert!(!h.is_enabled());
}

#[test]
fn the_five_builtin_ids_are_builtin() {
    for id in [
        "trailing-whitespace",
        "end-of-file-fixer",
        "check-yaml",
        "pretty-format-json",
        "check-added-large-files",
    ] {
        assert!(hook(id).is_builtin(), "{}", id);
    }
    assert!(!hook("ruff").is_builtin());
    assert!(!hook("").is_builtin());
    assert!(!hook("check-yaml ").is_builtin());
}

#[test]
fn only_the_placeholder_resolves_by_installation() {
    let mut h = hook("x");
    assert!(!h.command_is_install());
    h.command = Some("{install}".to_string());
    assert!(h.command_is_install());
    assert_eq!(h.command(), Some("{install}"));
    h.command = Some("./bin/tool".to_string());
    assert!(!h.command_is_install());
    h.command = Some("{install} ".to_string());
    assert!(!h.command_is_install());
}

#[test]
fn hook_getters_return_the_fields() {
    let mut h = hook("x");
    h.name = Some("n".to_string());
    h.entry = Some("e".to_string());
    h.language = Some("system".to_string());
    h.stages = Some(vec!["commit".to_string()]);
    h.additional_dependencies = Some(vec!["dep".to_string()]);
    h.args = Some(vec!["--fix".to_string(), "-q".to_string()]);
    h.files = Some("**/*.rs".to_string());
    h.working_dir = Some("sub".to_string());
    h.install = Some(InstallConfig::new(InstallLanguage::Go));
    assert_eq!(h.name(), Some("n"));
    assert_eq!(h.entry(), Some("e"));
    assert_eq!(h.language_field(), Some("system"));
    assert_eq!(h.stages().unwrap(), ["commit".to_string()]);
    assert_eq!(h.additional_dependencies().unwrap(), ["dep".to_string()]);
    assert_eq!(h.args().unwrap(), ["--fix".to_string(), "-q".to_string()]);
    assert_eq!(h.files(), Some("**/*.rs"));
    assert_eq!(h.working_dir(), Some("sub"));
    assert_eq!(h.install().unwrap().language(), InstallLanguage::Go);
}

#[test]
fn entry_and_binary_fall_back_on_each_other_and_on_the_id() {
    let mut i = InstallConfig::new(InstallLanguage::Rust);
    assert_eq!(i.entry("hook"), "hook");
    assert_eq!(i.binary("hook"), "hook");
    i.binary = Some("bin".to_string());
    assert_eq!(i.entry("hook"), "bin");
    assert_eq!(i.binary("hook"), "bin");
    i.entry = Some("ent".to_string());
    assert_eq!(i.entry("hook"), "ent");
    assert_eq!(i.binary("hook"), "bin");
    i.binary = None;
    assert_eq!(i.entry("hook"), "ent");
    assert_eq!(i.binary("hook"), "ent");
}

#[test]
fn install_getters_return_the_fields() {
    let mut i = InstallConfig::new(InstallLanguage::Python);
    assert_eq!(i.repo(), None);
    assert_eq!(i.package(), None);
    assert_eq!(i.version(), None);
    assert!(i.env().is_none());
    assert!(i.install_args().is_none());
    assert_eq!(i.language(), InstallLanguage::Python);
    i.repo = Some("https://example.com/r.git".to_string());
    i.package = Some("ruff".to_string());
    i.version = Some("0.4".to_string());
    i.env = Some(vec![("K".to_string(), "V".to_string())]);
    i.install_args = Some(vec!["--quiet".to_string()]);
    assert_eq!(i.repo(), Some("https://example.com/r.git"));
    assert_eq!(i.package(), Some("ruff"));
    assert_eq!(i.version(), Some("0.4"));
    assert_eq!(i.env().unwrap(), &vec![("K".to_string(), "V".to_string())]);
    assert_eq!(i.install_args().unwrap(), ["--quiet".to_string()]);
}

#[test]
fn the_default_language_is_rust() {
    assert_eq!(InstallLanguage::default(), InstallLanguage::Rust);
}

#[test]
fn languages_have_lower_case_names() {
    assert_eq!(InstallLanguage::Rust.as_str(), "rust");
    assert_eq!(InstallLanguage::Python.as_str(), "python");
    assert_eq!(InstallLanguage::Node.as_str(), "node");
    assert_eq!(InstallLanguage::Go.as_str(), "go");
}

#[test]
fn summary_names_language_target_entry_and_version() {
    let mut i = InstallConfig::new(InstallLanguage::Node);
    assert_eq!(i.summary(), "lang=node target=unknown entry=default version=latest");
    i.repo = Some("repo".to_string());
    assert_eq!(i.summary(), "lang=node target=repo entry=default version=latest");
    i.package = Some("prettier".to_string());
    i.entry = Some("prettier".to_string());
    i.version = Some("3.0".to_string());
    assert_eq!(i.summary(), "lang=node target=prettier entry=prettier version=3.0");
}

#[test]
fn a_manifest_without_repos_has_none() {
    let cfg = PreCommitConfig { repos: None };
    assert!(cfg.repos().is_empty());
    assert!(cfg.local_hooks().is_empty());
}

#[test]
fn repo_getters_return_the_fields() {
    let mut r = repo("https://example.com/hooks", vec![hook("a")]);
    assert_eq!(r.repo(), "https://example.com/hooks");
    assert_eq!(r.rev(), None);
    r.rev = Some("v1".to_string());
    assert_eq!(r.rev(), Some("v1"));
    assert_eq!(r.hooks().len(), 1);
    assert_eq!(r.hooks()[0].id(), "a");
}

#[test]
fn local_hooks_are_those_of_the_local_groups_in_order() {
    let cfg = PreCommitConfig {
        repos: Some(vec![
            repo("local", vec![hook("a"), hook("b")]),
            repo("https://example.com/hooks", vec![hook("remote")]),
            repo("local", vec![]),
            repo("Local", vec![hook("capital")]),
            repo("local", vec![hook("c")]),
        ]),
    };
    assert_eq!(cfg.repos().len(), 5);
    let hooks = cfg.local_hooks();
    let ids: Vec<&str> = hooks.iter().map(|(_, h)| h.id()).collect();
    assert_eq!(ids, vec!["a", "b", "c"]);
    for (group, _) in &hooks {
        assert_eq!(group.repo(), "local");
    }
}

#[test]
fn the_default_manifest_is_the_documented_text() {
    let text = default_config();
    assert_eq!(text, DEFAULT_CONFIG);
    assert!(text.starts_with("# .pre-commit.yaml generated by precommit-rs\n"));
    assert!(text.contains("\nrepos:\n  - repo: local\n    hooks:\n      - id: trailing-whitespace\n"));
    assert!(text.contains("        files: '**/*.{rs,py,js,ts,txt,md}'\n"));
    assert!(text.contains("        args: ['500000']  # optional max size in bytes\n\n"));
    assert!(text.contains("      #   command: \"{install}\"\n"));
    assert!(text.ends_with("      #   args: ['run', '--fix']\n"));
    assert_eq!(text.lines().count(), 87);
}
