use std::io::Write;

use precommit_rs::matcher::{
    collect_files, compile_patterns, expand_pattern, select_files, Candidate, MatchError,
};

fn file(path: &str) -> Candidate {
    Candidate { is_file: true, path: path.to_string(), relative: path.to_string() }
}

#[test]
fn brace_pattern_expands_to_one_pattern_per_alternative() {
    assert_eq!(expand_pattern("**/*.{rs,py}"), vec!["**/*.rs", "**/*.py"]);
    assert_eq!(expand_pattern("P{a,b}Q"), vec!["PaQ", "PbQ"]);
    assert_eq!(expand_pattern("src/{a,b,c}/x"), vec!["src/a/x", "src/b/x", "src/c/x"]);
}

#[test]
fn plain_pattern_expands_to_itself() {
    assert_eq!(expand_pattern("**/*.rs"), vec!["**/*.rs"]);
    assert_eq!(expand_pattern(""), vec![""]);
    assert_eq!(expand_pattern("a{b"), vec!["a{b"]);
    assert_eq!(expand_pattern("a}b"), vec!["a}b"]);
}

#[test]
fn closing_brace_before_opening_brace_is_no_group() {
    assert_eq!(expand_pattern("a}b{c,d}"), vec!["a}b{c,d}"]);
}

#[test]
fn alternatives_are_trimmed() {
    assert_eq!(expand_pattern("*.{ rs , py }"), vec!["*.rs", "*.py"]);
    assert_eq!(expand_pattern("x{\ta\u{a0},b}"), vec!["xa", "xb"]);
}

#[test]
fn empty_alternatives_are_kept() {
    assert_eq!(expand_pattern("a{}b"), vec!["ab"]);
    assert_eq!(expand_pattern("a{,}b"), vec!["ab", "ab"]);
    assert_eq!(expand_pattern("a{x,}b"), vec!["axb", "ab"]);
}

#[test]
fn only_the_first_group_is_expanded() {
    assert_eq!(expand_pattern("{a,b}{c,d}"), vec!["a{c,d}", "b{c,d}"]);
    assert_eq!(expand_pattern("{a,{b,c}}"), vec!["a}", "{b}", "c}"]);
}

#[test]
fn expansion_handles_characters_beyond_ascii() {
    assert_eq!(expand_pattern("\u{e9}{\u{1F600},b}\u{fc}"), vec!["\u{e9}\u{1F600}\u{fc}", "\u{e9}b\u{fc}"]);
}

#[test]
fn pattern_selects_files_by_extension() {
    let pattern = String::from("**/*.{rs,py}");
    let candidates = vec![
        Candidate { is_file: false, path: "./".to_string(), relative: "./".to_string() },
        file("./a.rs"),
        file("./b.py"),
        file("./c.txt"),
    ];
    let paths = collect_files(Some(&pattern), &candidates).unwrap();
    assert_eq!(paths, vec!["./a.rs", "./b.py"]);
}

#[test]
fn directories_are_never_selected() {
    let pattern = String::from("**");
    let candidates = vec![
        Candidate { is_file: false, path: "src".to_string(), relative: "src".to_string() },
        file("src/a.rs"),
    ];
    assert_eq!(collect_files(Some(&pattern), &candidates).unwrap(), vec!["src/a.rs"]);
}

#[test]
fn a_match_on_either_path_is_accepted() {
    let pattern = String::from("/work/*.rs");
    let candidates = vec![
        Candidate { is_file: true, path: "/work/a.rs".to_string(), relative: "a.rs".to_string() },
        Candidate { is_file: true, path: "/other/b.rs".to_string(), relative: "b.rs".to_string() },
    ];
    assert_eq!(collect_files(Some(&pattern), &candidates).unwrap(), vec!["/work/a.rs"]);
    let pattern = String::from("*.rs");
    assert_eq!(
        collect_files(Some(&pattern), &candidates).unwrap(),
        vec!["/work/a.rs", "/other/b.rs"]
    );
}

#[test]
fn no_pattern_resolves_to_the_current_directory() {
    let candidates = vec![file("a.rs")];
    assert_eq!(collect_files(None, &candidates).unwrap(), vec!["."]);
    assert_eq!(collect_files(None, &Vec::new()).unwrap(), vec!["."]);
}

#[test]
fn a_pattern_that_matches_nothing_is_no_error() {
    let pattern = String::from("*.go");
    let candidates = vec![file("a.rs")];
    assert_eq!(collect_files(Some(&pattern), &candidates).unwrap(), Vec::<String>::new());
}

#[test]
fn an_invalid_expansion_is_reported_with_its_text() {
    let pattern = String::from("ok{a,b***,[}");
    match collect_files(Some(&pattern), &Vec::new()) {
        Err(MatchError::InvalidPattern { pattern, position, reason }) => {
            assert_eq!(pattern, "okb***");
            assert_eq!(position, 5);
            assert_eq!(reason, "wildcards are either regular `*` or recursive `**`");
        }
        Ok(_) => panic!("the pattern is invalid"),
    }
}

#[test]
fn compiled_patterns_follow_the_expansions() {
    let compiled = compile_patterns("src/*.{rs,toml}").unwrap();
    assert_eq!(compiled.len(), 2);
    assert_eq!(compiled[0].as_str(), "src/*.rs");
    assert_eq!(compiled[1].as_str(), "src/*.toml");
    let candidates = vec![file("src/a.rs"), file("src/Cargo.toml"), file("src/a.py")];
    assert_eq!(select_files(&compiled, &candidates), vec!["src/a.rs", "src/Cargo.toml"]);
    assert!(compile_patterns("a**").is_err());
}

#[test]
fn ignored_files_and_other_extensions_are_not_resolved() {
    let root = tempfile::tempdir().unwrap();
    let dir = |parent: &std::path::Path, name: &str| {
        tempfile::Builder::new().prefix(name).rand_bytes(0).tempdir_in(parent).unwrap()
    };
    let put = |parent: &std::path::Path, name: &str, content: &str| {
        let mut f =
            tempfile::Builder::new().prefix(name).rand_bytes(0).tempfile_in(parent).unwrap();
        f.write_all(content.as_bytes()).unwrap();
        f
    };
    let _git = dir(root.path(), ".git");
    let _ignore = put(root.path(), ".gitignore", "build/\n");
    let _a = put(root.path(), "a.rs", "fn main() {}\n");
    let _b = put(root.path(), "b.py", "pass\n");
    let _c = put(root.path(), "c.txt", "text\n");
    let build = dir(root.path(), "build");
    let _d = put(build.path(), "d.rs", "fn ignored() {}\n");

    let walker = ignore::WalkBuilder::new(root.path())
        .standard_filters(true)
        .git_ignore(true)
        .git_global(true)
        .git_exclude(true)
        .build();
    let mut candidates = Vec::new();
    for entry in walker {
        let entry = entry.unwrap();
        let relative = entry.path().strip_prefix(root.path()).unwrap();
        candidates.push(Candidate {
            is_file: entry.file_type().map(|ft| ft.is_file()).unwrap_or(false),
            path: relative.to_string_lossy().to_string(),
            relative: relative.to_string_lossy().to_string(),
        });
    }
    let pattern = String::from("**/*.{rs,py}");
    let mut paths = collect_files(Some(&pattern), &candidates).unwrap();
    paths.sort();
    assert_eq!(paths, vec!["a.rs", "b.py"]);
}
