//! The hook manifest: repo groups, hook definitions and install specs.
//!
//! These are plain records. Every combination of fields is a value of the
//! model; what a hook needs at use time (an install spec for a hook that
//! resolves by installation, a package or repository in that spec) is
//! checked where it is used.

use crate::text::text_eq;
use vstd::prelude::*;

verus! {

broadcast use vstd::string::group_string_axioms;

/// The toolchain through which an external hook is provisioned.
#[derive(Debug, Clone, Copy, PartialEq, Eq, Structural)]
pub enum InstallLanguage {
    Rust,
    Python,
    Node,
    Go,
}

impl Default for InstallLanguage {
    fn default() -> (r: Self)
        ensures
            r == InstallLanguage::Rust,
    {
        InstallLanguage::Rust
    }
}

impl InstallLanguage {
    /// The lower-case name under which the language is written in the
    /// manifest and in the lock file.
    pub open spec fn name(self) -> Seq<char> {
        match self {
            InstallLanguage::Rust => "rust"@,
            InstallLanguage::Python => "python"@,
            InstallLanguage::Node => "node"@,
            InstallLanguage::Go => "go"@,
        }
    }

    pub fn as_str(self) -> (r: &'static str)
        ensures
            r@ == self.name(),
    {
        match self {
            InstallLanguage::Rust => "rust",
            InstallLanguage::Python => "python",
            InstallLanguage::Node => "node",
            InstallLanguage::Go => "go",
        }
    }
}

/// How to provision the executable of an external hook.
#[derive(Debug)]
pub struct InstallConfig {
    pub repo: Option<String>,
    pub package: Option<String>,
    pub version: Option<String>,
    pub entry: Option<String>,
    pub binary: Option<String>,
    pub language: InstallLanguage,
    pub env: Option<Vec<(String, String)>>,
    pub install_args: Option<Vec<String>>,
}

/// The mathematical content of an [`InstallConfig`].
pub struct InstallView {
    pub repo: Option<Seq<char>>,
    pub package: Option<Seq<char>>,
    pub version: Option<Seq<char>>,
    pub entry: Option<Seq<char>>,
    pub binary: Option<Seq<char>>,
    pub language: InstallLanguage,
    pub env: Option<Seq<(Seq<char>, Seq<char>)>>,
    pub install_args: Option<Seq<Seq<char>>>,
}

impl View for InstallConfig {
    type V = InstallView;

    open spec fn view(&self) -> InstallView {
        InstallView {
            repo: self.repo.deep_view(),
            package: self.package.deep_view(),
            version: self.version.deep_view(),
            entry: self.entry.deep_view(),
            binary: self.binary.deep_view(),
            language: self.language,
            env: self.env.deep_view(),
            install_args: self.install_args.deep_view(),
        }
    }
}

impl DeepView for InstallConfig {
    type V = InstallView;

    open spec fn deep_view(&self) -> InstallView {
        self@
    }
}

impl InstallView {
    /// The name of the installed entry point: the `entry` override, else the
    /// `binary` override, else the hook's id.
    pub open spec fn entry_name(self, hook_id: Seq<char>) -> Seq<char> {
        match self.entry {
            Some(e) => e,
            None => match self.binary {
                Some(b) => b,
                None => hook_id,
            },
        }
    }

    /// The name of the installed binary: the `binary` override, else the
    /// `entry` override, else the hook's id.
    pub open spec fn binary_name(self, hook_id: Seq<char>) -> Seq<char> {
        match self.binary {
            Some(b) => b,
            None => match self.entry {
                Some(e) => e,
                None => hook_id,
            },
        }
    }

    /// What is installed: the package, else the repository, else nothing.
    pub open spec fn package_or_repo(self) -> Option<Seq<char>> {
        match self.package {
            Some(p) => Some(p),
            None => self.repo,
        }
    }

    /// What is installed: the repository, else the package, else nothing.
    pub open spec fn repo_or_package(self) -> Option<Seq<char>> {
        match self.repo {
            Some(r) => Some(r),
            None => self.package,
        }
    }

    /// The one-line description of the spec shown in listings.
    pub open spec fn summary(self) -> Seq<char> {
        "lang="@ + self.language.name() + " target="@ + (match self.package_or_repo() {
            Some(t) => t,
            None => "unknown"@,
        }) + " entry="@ + (match self.entry {
            Some(e) => e,
            None => "default"@,
        }) + " version="@ + (match self.version {
            Some(v) => v,
            None => "latest"@,
        })
    }
}

impl InstallConfig {
    /// A spec for `language` with every optional field absent.
    pub fn new(language: InstallLanguage) -> (r: Self)
        ensures
            r@ == (InstallView {
                repo: None,
                package: None,
                version: None,
                entry: None,
                binary: None,
                language,
                env: None,
                install_args: None,
            }),
    {
        InstallConfig {
            repo: None,
            package: None,
            version: None,
            entry: None,
            binary: None,
            language,
            env: None,
            install_args: None,
        }
    }

    pub fn repo(&self) -> (r: Option<&str>)
        ensures
            r.deep_view() == self@.repo,
    {
        match &self.repo {
            Some(s) => Some(s.as_str()),
            None => None,
        }
    }

    pub fn package(&self) -> (r: Option<&str>)
        ensures
            r.deep_view() == self@.package,
    {
        match &self.package {
            Some(s) => Some(s.as_str()),
            None => None,
        }
    }

    pub fn version(&self) -> (r: Option<&str>)
        ensures
            r.deep_view() == self@.version,
    {
        match &self.version {
            Some(s) => Some(s.as_str()),
            None => None,
        }
    }

    pub fn entry<'a>(&'a self, hook_id: &'a str) -> (r: &'a str)
        ensures
            r@ == self@.entry_name(hook_id@),
    {
        match &self.entry {
            Some(e) => e.as_str(),
            None => match &self.binary {
                Some(b) => b.as_str(),
                None => hook_id,
            },
        }
    }

    pub fn binary<'a>(&'a self, hook_id: &'a str) -> (r: &'a str)
        ensures
            r@ == self@.binary_name(hook_id@),
    {
        match &self.binary {
            Some(b) => b.as_str(),
            None => match &self.entry {
                Some(e) => e.as_str(),
                None => hook_id,
            },
        }
    }

    pub fn language(&self) -> (r: InstallLanguage)
        ensures
            r == self@.language,
    {
        self.language
    }

    pub fn env(&self) -> (r: Option<&Vec<(String, String)>>)
        ensures
            r.deep_view() == self@.env,
    {
        match &self.env {
            Some(e) => Some(e),
            None => None,
        }
    }

    pub fn install_args(&self) -> (r: Option<&[String]>)
        ensures
            r.deep_view() == self@.install_args,
    {
        match &self.install_args {
            Some(a) => Some(a.as_slice()),
            None => None,
        }
    }

    pub fn summary(&self) -> (r: String)
        ensures
            r@ == self@.summary(),
    {
        let target: &str = match &self.package {
            Some(p) => p.as_str(),
            None => match &self.repo {
                Some(r) => r.as_str(),
                None => "unknown",
            },
        };
        let entry: &str = match &self.entry {
            Some(e) => e.as_str(),
            None => "default",
        };
        let version: &str = match &self.version {
            Some(v) => v.as_str(),
            None => "latest",
        };
        let mut out = String::from_str("lang=");
        out.append(self.language.as_str());
        out.append(" target=");
        out.append(target);
        out.append(" entry=");
        out.append(entry);
        out.append(" version=");
        out.append(version);
        out
    }
}

/// One hook of the manifest.
#[derive(Debug)]
pub struct HookConfig {
    pub id: String,
    pub name: Option<String>,
    pub entry: Option<String>,
    pub language: Option<String>,
    pub stages: Option<Vec<String>>,
    pub additional_dependencies: Option<Vec<String>>,
    pub enabled: Option<bool>,
    pub args: Option<Vec<String>>,
    pub files: Option<String>,
    /// External command to run in place of a built-in hook.
    pub command: Option<String>,
    /// Working directory of the external command.
    pub working_dir: Option<String>,
    pub install: Option<InstallConfig>,
}

/// The mathematical content of a [`HookConfig`].
pub struct HookView {
    pub id: Seq<char>,
    pub name: Option<Seq<char>>,
    pub entry: Option<Seq<char>>,
    pub language: Option<Seq<char>>,
    pub stages: Option<Seq<Seq<char>>>,
    pub additional_dependencies: Option<Seq<Seq<char>>>,
    pub enabled: Option<bool>,
    pub args: Option<Seq<Seq<char>>>,
    pub files: Option<Seq<char>>,
    pub command: Option<Seq<char>>,
    pub working_dir: Option<Seq<char>>,
    pub install: Option<InstallView>,
}

impl View for HookConfig {
    type V = HookView;

    open spec fn view(&self) -> HookView {
        HookView {
            id: self.id@,
            name: self.name.deep_view(),
            entry: self.entry.deep_view(),
            language: self.language.deep_view(),
            stages: self.stages.deep_view(),
            additional_dependencies: self.additional_dependencies.deep_view(),
            enabled: self.enabled,
            args: self.args.deep_view(),
            files: self.files.deep_view(),
            command: self.command.deep_view(),
            working_dir: self.working_dir.deep_view(),
            install: self.install.deep_view(),
        }
    }
}

impl DeepView for HookConfig {
    type V = HookView;

    open spec fn deep_view(&self) -> HookView {
        self@
    }
}

/// Whether `id` names one of the hooks that the engine implements itself.
pub open spec fn is_builtin_id(id: Seq<char>) -> bool {
    ||| id == "trailing-whitespace"@
    ||| id == "end-of-file-fixer"@
    ||| id == "check-yaml"@
    ||| id == "pretty-format-json"@
    ||| id == "check-added-large-files"@
}

impl HookView {
    /// A hook runs unless the manifest switches it off.
    pub open spec fn is_enabled(self) -> bool {
        match self.enabled {
            Some(e) => e,
            None => true,
        }
    }

    /// Whether the hook's executable is to be resolved by installation: its
    /// command is the placeholder `{install}`.
    pub open spec fn command_is_install(self) -> bool {
        self.command == Some("{install}"@)
    }
}

impl HookConfig {
    /// A hook with the given id and every optional field absent.
    pub fn new(id: String) -> (r: Self)
        ensures
            r@ == (HookView {
                id: id@,
                name: None,
                entry: None,
                language: None,
                stages: None,
                additional_dependencies: None,
                enabled: None,
                args: None,
                files: None,
                command: None,
                working_dir: None,
                install: None,
            }),
    {
        HookConfig {
            id,
            name: None,
            entry: None,
            language: None,
            stages: None,
            additional_dependencies: None,
            enabled: None,
            args: None,
            files: None,
            command: None,
            working_dir: None,
            install: None,
        }
    }

    pub fn id(&self) -> (r: &str)
        ensures
            r@ == self@.id,
    {
        self.id.as_str()
    }

    pub fn name(&self) -> (r: Option<&str>)
        ensures
            r.deep_view() == self@.name,
    {
        match &self.name {
            Some(s) => Some(s.as_str()),
            None => None,
        }
    }

    pub fn entry(&self) -> (r: Option<&str>)
        ensures
            r.deep_view() == self@.entry,
    {
        match &self.entry {
            Some(s) => Some(s.as_str()),
            None => None,
        }
    }

    pub fn language_field(&self) -> (r: Option<&str>)
        ensures
            r.deep_view() == self@.language,
    {
        match &self.language {
            Some(s) => Some(s.as_str()),
            None => None,
        }
    }

    pub fn stages(&self) -> (r: Option<&[String]>)
        ensures
            r.deep_view() == self@.stages,
    {
        match &self.stages {
            Some(v) => Some(v.as_slice()),
            None => None,
        }
    }

    pub fn additional_dependencies(&self) -> (r: Option<&[String]>)
        ensures
            r.deep_view() == self@.additional_dependencies,
    {
        match &self.additional_dependencies {
            Some(v) => Some(v.as_slice()),
            None => None,
        }
    }

    pub fn is_enabled(&self) -> (r: bool)
        ensures
            r == self@.is_enabled(),
    {
        match self.enabled {
            Some(e) => e,
            None => true,
        }
    }

    pub fn is_builtin(&self) -> (r: bool)
        ensures
            r == is_builtin_id(self@.id),
    {
        let id = self.id.as_str();
        text_eq(id, "trailing-whitespace") || text_eq(id, "end-of-file-fixer") || text_eq(
            id,
            "check-yaml",
        ) || text_eq(id, "pretty-format-json") || text_eq(id, "check-added-large-files")
    }

    pub fn command(&self) -> (r: Option<&str>)
        ensures
            r.deep_view() == self@.command,
    {
        match &self.command {
            Some(s) => Some(s.as_str()),
            None => None,
        }
    }

    pub fn command_is_install(&self) -> (r: bool)
        ensures
            r == self@.command_is_install(),
    {
        match &self.command {
            Some(c) => text_eq(c.as_str(), "{install}"),
            None => false,
        }
    }

    pub fn install(&self) -> (r: Option<&InstallConfig>)
        ensures
            r.deep_view() == self@.install,
    {
        match &self.install {
            Some(i) => Some(i),
            None => None,
        }
    }

    pub fn args(&self) -> (r: Option<&[String]>)
        ensures
            r.deep_view() == self@.args,
    {
        match &self.args {
            Some(v) => Some(v.as_slice()),
            None => None,
        }
    }

    pub fn files(&self) -> (r: Option<&str>)
        ensures
            r.deep_view() == self@.files,
    {
        match &self.files {
            Some(s) => Some(s.as_str()),
            None => None,
        }
    }

    pub fn working_dir(&self) -> (r: Option<&str>)
        ensures
            r.deep_view() == self@.working_dir,
    {
        match &self.working_dir {
            Some(s) => Some(s.as_str()),
            None => None,
        }
    }
}

/// A group of hooks that share a source.
#[derive(Debug)]
pub struct RepoConfig {
    pub repo: String,
    pub rev: Option<String>,
    pub hooks: Vec<HookConfig>,
}

/// The mathematical content of a [`RepoConfig`].
pub struct RepoView {
    pub repo: Seq<char>,
    pub rev: Option<Seq<char>>,
    pub hooks: Seq<HookView>,
}

impl View for RepoConfig {
    type V = RepoView;

    open spec fn view(&self) -> RepoView {
        RepoView { repo: self.repo@, rev: self.rev.deep_view(), hooks: self.hooks.deep_view() }
    }
}

impl DeepView for RepoConfig {
    type V = RepoView;

    open spec fn deep_view(&self) -> RepoView {
        self@
    }
}

impl RepoView {
    /// Whether the group is one whose hooks this engine runs.
    pub open spec fn is_local(self) -> bool {
        self.repo == "local"@
    }

    /// The hooks of the group, each paired with the group.
    pub open spec fn pairs(self) -> Seq<(RepoView, HookView)> {
        Seq::new(self.hooks.len(), |i: int| (self, self.hooks[i]))
    }
}

impl RepoConfig {
    pub fn repo(&self) -> (r: &str)
        ensures
            r@ == self@.repo,
    {
        self.repo.as_str()
    }

    pub fn rev(&self) -> (r: Option<&str>)
        ensures
            r.deep_view() == self@.rev,
    {
        match &self.rev {
            Some(s) => Some(s.as_str()),
            None => None,
        }
    }

    pub fn hooks(&self) -> (r: &[HookConfig])
        ensures
            r.deep_view() == self@.hooks,
    {
        self.hooks.as_slice()
    }
}

/// The hooks of the local groups among `repos`, in manifest order, each
/// paired with its group.
pub open spec fn local_pairs(repos: Seq<RepoView>) -> Seq<(RepoView, HookView)>
    decreases repos.len(),
{
    if repos.len() == 0 {
        Seq::empty()
    } else {
        let rest = local_pairs(repos.drop_last());
        if repos.last().is_local() {
            rest + repos.last().pairs()
        } else {
            rest
        }
    }
}

/// The hook manifest.
#[derive(Debug)]
pub struct PreCommitConfig {
    pub repos: Option<Vec<RepoConfig>>,
}

impl View for PreCommitConfig {
    type V = Seq<RepoView>;

    /// The repo groups in manifest order; a manifest without a `repos` key
    /// holds none.
    open spec fn view(&self) -> Seq<RepoView> {
        match self.repos {
            Some(r) => r.deep_view(),
            None => Seq::empty(),
        }
    }
}

/// The views of a list of (group, hook) references.
pub open spec fn pair_views(pairs: Seq<(&RepoConfig, &HookConfig)>) -> Seq<(RepoView, HookView)> {
    Seq::new(pairs.len(), |i: int| (pairs[i].0@, pairs[i].1@))
}

impl PreCommitConfig {
    pub fn repos(&self) -> (r: &[RepoConfig])
        ensures
            r.deep_view() == self@,
    {
        match &self.repos {
            Some(v) => v.as_slice(),
            None => &[],
        }
    }

    /// The hooks that the engine can run: those of the groups whose source
    /// is `local`, in manifest order.
    pub fn local_hooks(&self) -> (r: Vec<(&RepoConfig, &HookConfig)>)
        ensures
            pair_views(r@) == local_pairs(self@),
    {
        let mut out: Vec<(&RepoConfig, &HookConfig)> = Vec::new();
        let repos = self.repos();
        let mut i: usize = 0;
        proof {
            assert(repos.deep_view().take(0) =~= Seq::empty());
            assert(pair_views(out@) =~= Seq::empty());
        }
        while i < repos.len()
            invariant
                i <= repos@.len(),
                repos.deep_view() == self@,
                pair_views(out@) == local_pairs(self@.take(i as int)),
            decreases repos@.len() - i,
        {
            let repo = &repos[i];
            proof {
                assert(self@.take(i + 1).drop_last() =~= self@.take(i as int));
                assert(self@.take(i + 1).last() == repo@);
            }
            if text_eq(repo.repo.as_str(), "local") {
                let ghost before = out@;
                let mut j: usize = 0;
                while j < repo.hooks.len()
                    invariant
                        j <= repo.hooks@.len(),
                        pair_views(out@) == pair_views(before) + repo@.pairs().take(j as int),
                    decreases repo.hooks@.len() - j,
                {
                    let ghost prev = out@;
                    out.push((repo, &repo.hooks[j]));
                    proof {
                        assert(pair_views(out@) =~= pair_views(prev).push(
                            (repo@, repo.hooks@[j as int]@),
                        ));
                        assert(repo@.pairs().take(j + 1) =~= repo@.pairs().take(j as int).push(
                            (repo@, repo.hooks@[j as int]@),
                        ));
                    }
                    j = j + 1;
                }
                proof {
                    assert(repo@.pairs().take(j as int) =~= repo@.pairs());
                }
            }
            i = i + 1;
        }
        proof {
            assert(self@.take(i as int) =~= self@);
        }
        out
    }
}

/// The manifest that a new project starts from: the built-in hooks, each
/// with a pattern for the files it applies to, and examples of external
/// hooks for each ecosystem, commented out.
pub const DEFAULT_CONFIG: &'static str = "\
     # .pre-commit.yaml generated by precommit-rs\n\
     # Each hook has a 'files' glob pattern that matches files to check\n\
     # Globs can use: ? (single char), * (any chars), ** (recursive dirs)\n\
     # Example: '*.{rs,toml}' matches Rust files and Cargo.toml\n\
     #\n\
     # For external tools, precommit-rs manages installation automatically.\n\
     # Python hooks use the `uv` CLI (https://docs.astral.sh/uv/) to create per-hook virtual environments.\n\
     # Ensure `uv`, `npm`, `cargo`, and `go` are available on PATH before running the respective external hooks.\n\
     repos:\n\
     \x20 - repo: local\n\
     \x20   hooks:\n\
     \x20     - id: trailing-whitespace\n\
     \x20       name: trailing-whitespace\n\
     \x20       entry: trailing-whitespace\n\
     \x20       language: system\n\
     \x20       pass_filenames: true\n\
     \x20       files: '**/*.{rs,py,js,ts,txt,md}'\n\
     \x20     - id: end-of-file-fixer\n\
     \x20       name: end-of-file-fixer\n\
     \x20       entry: end-of-file-fixer\n\
     \x20       language: system\n\
     \x20       files: '**/*.{rs,py,txt,md}'\n\
     \x20     - id: check-yaml\n\
     \x20       name: check-yaml\n\
     \x20       entry: check-yaml\n\
     \x20       language: system\n\
     \x20       files: '**/*.{yml,yaml}'\n\
     \x20     - id: pretty-format-json\n\
     \x20       name: pretty-format-json\n\
     \x20       entry: pretty-format-json\n\
     \x20       language: system\n\
     \x20       files: '**/*.{json,jsonc}'\n\
     \x20     - id: check-added-large-files\n\
     \x20       name: check-added-large-files\n\
     \x20       entry: check-added-large-files\n\
     \x20       language: system\n\
     \x20       args: ['500000']  # optional max size in bytes\n\
     \n\
     \x20     # Example hooks (uncomment to enable):\n\
     \x20     # - id: ruff-check\n\
     \x20     #   name: ruff-check\n\
     \x20     #   entry: ruff\n\
     \x20     #   language: system\n\
     \x20     #   command: \"{install}\"\n\
     \x20     #   files: '**/*.py'\n\
     \x20     #   install:\n\
     \x20     #     language: python\n\
     \x20     #     package: ruff\n\
     \x20     #     entry: ruff\n\
     \x20     #   args: ['check', '--fix']\n\
     \n\
     \x20     # - id: prettier\n\
     \x20     #   name: prettier\n\
     \x20     #   entry: prettier\n\
     \x20     #   language: system\n\
     \x20     #   command: \"{install}\"\n\
     \x20     #   files: '**/*.{js,ts,jsx,tsx,json,css,md}'\n\
     \x20     #   install:\n\
     \x20     #     language: node\n\
     \x20     #     package: prettier\n\
     \x20     #     entry: prettier\n\
     \x20     #   args: ['--write']\n\
     \n\
     \x20     # - id: cargo-deny\n\
     \x20     #   name: cargo-deny\n\
     \x20     #   entry: cargo-deny\n\
     \x20     #   language: system\n\
     \x20     #   command: \"{install}\"\n\
     \x20     #   files: '**/Cargo.lock'\n\
     \x20     #   install:\n\
     \x20     #     language: rust\n\
     \x20     #     package: cargo-deny\n\
     \x20     #     binary: cargo-deny\n\
     \x20     #   args: ['check']\n\
     \n\
     \x20     # - id: golangci-lint\n\
     \x20     #   name: golangci-lint\n\
     \x20     #   entry: golangci-lint\n\
     \x20     #   language: system\n\
     \x20     #   command: \"{install}\"\n\
     \x20     #   files: '**/*.go'\n\
     \x20     #   install:\n\
     \x20     #     language: go\n\
     \x20     #     package: github.com/golangci/golangci-lint/cmd/golangci-lint\n\
     \x20     #     version: v1.61.0\n\
     \x20     #     entry: golangci-lint\n\
     \x20     #   args: ['run', '--fix']\n\
     ";

/// The text of the manifest that a new project starts from.
pub fn default_config() -> (out: String)
    ensures
        out@ == DEFAULT_CONFIG@,
{
    String::from_str(DEFAULT_CONFIG)
}

} // verus!
