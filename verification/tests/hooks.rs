use precommit_rs::hooks::check_added_large_files;
use precommit_rs::hooks::check_added_large_files::SizedFile;
use precommit_rs::hooks::check_yaml;
use precommit_rs::hooks::end_of_file;
use precommit_rs::hooks::pretty_format_json;
use precommit_rs::hooks::trailing_whitespace;
use precommit_rs::hooks::{FileContent, FileOutcome, HookReport, SourceFile};
use precommit_rs::RunContext;

fn text(path: &str, content: &str) -> SourceFile {
    SourceFile { path: path.to_string(), content: FileContent::Text(content.to_string()) }
}

fn binary(path: &str) -> SourceFile {
    SourceFile { path: path.to_string(), content: FileContent::NotText }
}

fn dry() -> RunContext {
    let mut ctx = RunContext::default();
    ctx.dry_run = true;
    ctx.debug = true;
    ctx
}

fn sized(path: &str, size: u64) -> SizedFile {
    SizedFile { path: path.to_string(), size }
}

#[test]
fn detects_large_file() {
    let files = vec![sized("big.bin", 1024 * 1024)];
    // Use a large limit so that nothing is too large
    let res = check_added_large_files::run(Some(10_000_000), &files);
    assert!(!res.too_large);
    assert_eq!(res.exit_code, 0);
}

#[test]
fn large_files_fail_an_enforcing_run_only() {
    let files = vec![sized("a", 10), sized("b", 2_000_000), sized("c", 20)];
    let res = check_added_large_files::run(Some(500_000), &files);
    assert!(res.too_large);
    assert_eq!(res.exit_code, 1);
    let mut ctx = dry();
    let res = check_added_large_files::run_with_ctx(&mut ctx, Some(500_000), &files);
    assert!(res.too_large);
    assert_eq!(res.exit_code, 0);
    let entry = ctx.changelog.add_entry("check-added-large-files");
    assert_eq!(entry.files_checked, vec!["a", "b", "c"]);
    assert_eq!(entry.changes, vec!["File b is too large (2000000 bytes) > 500000 bytes"]);
    assert!(entry.files_modified.is_empty());
}

#[test]
fn the_default_limit_is_500_kilobytes() {
    assert_eq!(check_added_large_files::DEFAULT_LIMIT, 500_000);
    assert!(!check_added_large_files::run(None, &vec![sized("a", 500_000)]).too_large);
    assert!(check_added_large_files::run(None, &vec![sized("a", 500_001)]).too_large);
    assert!(!check_added_large_files::run(None, &Vec::new()).too_large);
    let mut ctx = RunContext::default();
    assert!(check_added_large_files::check_file(&mut ctx, &sized("f", 2), 1));
    assert!(!check_added_large_files::check_file(&mut ctx, &sized("g", 1), 1));
    assert!(!check_added_large_files::check_file(&mut ctx, &sized("h", 0), 0));
    assert!(check_added_large_files::check_file(&mut ctx, &sized("i", u64::MAX), 0));
    let entry = ctx.changelog.add_entry("check-added-large-files");
    assert_eq!(
        entry.changes,
        vec![
            "File f is too large (2 bytes) > 1 bytes",
            "File i is too large (18446744073709551615 bytes) > 0 bytes",
        ]
    );
}

#[test]
fn valid_yaml_ok() {
    let res = check_yaml::run(&vec![text("a.yaml", "a: 1\nb: [1,2]")]);
    assert!(!res.changed);
    assert_eq!(res.exit_code, 0);
    assert!(res.rewrites.is_empty());
}

#[test]
fn invalid_yaml_is_a_violation_and_is_reported() {
    let mut ctx = RunContext::default();
    let files = vec![text("ok.yaml", "a: 1"), text("bad.yaml", "invalid: [yaml: }"), binary("x.bin")];
    let res = check_yaml::run_with_ctx(&mut ctx, &files);
    assert!(res.changed);
    assert_eq!(res.exit_code, 1);
    assert!(res.rewrites.is_empty());
    let entry = ctx.changelog.add_entry("check-yaml");
    assert_eq!(entry.files_checked, vec!["ok.yaml", "bad.yaml", "x.bin"]);
    assert_eq!(entry.changes.len(), 2);
    assert!(entry.changes[0].starts_with("Invalid YAML in bad.yaml: "));
    assert!(entry.changes[0].len() > "Invalid YAML in bad.yaml: ".len());
    assert_eq!(entry.changes[1], "Skipped non-UTF8 file: x.bin");
    let res = check_yaml::run_with_ctx(&mut dry(), &files);
    assert!(res.changed);
    assert_eq!(res.exit_code, 0);
}

#[test]
fn a_yaml_problem_is_reported_in_the_parsers_words() {
    let mut ctx = RunContext::default();
    let out = check_yaml::judge(&mut ctx, "f.yaml", Some("mapping values are not allowed"));
    assert!(out.changed);
    assert_eq!(out.rewrite, None);
    assert_eq!(
        ctx.changelog.add_entry("check-yaml").changes,
        vec!["Invalid YAML in f.yaml: mapping values are not allowed"]
    );
    let mut ctx = RunContext::default();
    let out = check_yaml::judge(&mut ctx, "f.yaml", None);
    assert!(!out.changed);
    assert!(!ctx.changelog.has_changes());
}

#[test]
fn ensures_single_newline() {
    let file = text("b.txt", "x\n\n\n");
    let mut ctx = RunContext::default();
    let out = end_of_file::fix_file_with_ctx(&mut ctx, &file);
    assert!(out.changed);
    assert_eq!(out.rewrite, Some("x\n".to_string()));
}

#[test]
fn test_changelog_recording() {
    let file = text("test.txt", "test\n\n\n");
    // Use dry_run mode so that nothing is enforced
    let mut ctx = dry();
    let result = end_of_file::run_with_ctx(&mut ctx, &vec![file]);
    assert_eq!(result.exit_code, 0);
    assert!(ctx.changelog.has_changes());
}

#[test]
fn a_dry_run_reports_a_missing_newline_and_changes_nothing() {
    let file = text("a.txt", "no newline");
    let mut ctx = dry();
    let report = end_of_file::run_with_ctx(&mut ctx, &vec![file]);
    assert_eq!(report.exit_code, 0);
    assert!(report.changed);
    assert!(report.rewrites.is_empty());
    let entry = ctx.changelog.add_entry("end-of-file-fixer");
    assert_eq!(entry.changes, vec!["Would normalize newlines at end of a.txt"]);
    assert_eq!(entry.files_checked, vec!["a.txt"]);
    assert!(entry.files_modified.is_empty());
}

#[test]
fn an_enforcing_run_fixes_a_missing_newline_and_fails() {
    let file = text("a.txt", "no newline");
    let mut ctx = RunContext::default();
    let report = end_of_file::run_with_ctx(&mut ctx, &vec![file]);
    assert_eq!(report.exit_code, 1);
    assert!(report.changed);
    assert_eq!(report.rewrites, vec![("a.txt".to_string(), "no newline\n".to_string())]);
    let entry = ctx.changelog.add_entry("end-of-file-fixer");
    assert_eq!(entry.changes, vec!["Normalized newlines at end of a.txt"]);
    assert_eq!(entry.files_modified, vec!["a.txt"]);
}

#[test]
fn end_of_file_normalizes_every_kind_of_ending() {
    for (content, expected) in [
        ("x", Some("x\n")),
        ("x\n", None),
        ("x\r\n", Some("x\n")),
        ("x\n\r\n\r", Some("x\n")),
        ("", Some("\n")),
        ("\n", None),
        ("\n\n", Some("\n")),
        ("a\nb \n", None),
        ("\u{e9}\u{1F600}", Some("\u{e9}\u{1F600}\n")),
    ] {
        let out = end_of_file::fix_file_with_ctx(&mut RunContext::default(), &text("f", content));
        assert_eq!(out.rewrite.as_deref(), expected, "{:?}", content);
        assert_eq!(out.changed, expected.is_some(), "{:?}", content);
    }
}

#[test]
fn end_of_file_skips_files_that_are_no_text() {
    let mut ctx = RunContext::default();
    let report = end_of_file::run(&vec![binary("x.bin"), text("ok.txt", "ok\n")]);
    assert!(!report.changed);
    assert_eq!(report.exit_code, 0);
    let out = end_of_file::fix_file_with_ctx(&mut ctx, &binary("x.bin"));
    assert!(!out.changed);
    let entry = ctx.changelog.add_entry("end-of-file-fixer");
    assert_eq!(entry.changes, vec!["Skipped non-UTF8 file: x.bin"]);
    assert_eq!(entry.files_checked, vec!["x.bin"]);
}

#[test]
fn removes_trailing_spaces() {
    let file = text("a.txt", "hello \nworld\t \n");
    let mut ctx = RunContext::default();
    let out = trailing_whitespace::fix_file_with_ctx(&mut ctx, &file);
    assert!(out.changed);
    assert_eq!(out.rewrite, Some("hello\nworld\n".to_string()));
}

#[test]
fn cleaning_agrees_with_a_line_by_line_trim() {
    for content in [
        "", "a", "a ", "a\n", "a \n", " a\t\n\tb  ", "a\r\n", "a \r\n", "a\r", "a \r", "\n\n",
        " \n \n", "x\n\n y \n", "\r\n", "a\n\r\nb", "tab\t", "a \u{a0}\n", "\u{e9} \n\u{1F600}\t",
    ] {
        let mut expected = String::new();
        let mut changed = false;
        for line in content.lines() {
            let trimmed = line.trim_end_matches(|c| c == ' ' || c == '\t');
            if trimmed.len() != line.len() {
                changed = true;
            }
            expected.push_str(trimmed);
            expected.push('\n');
        }
        let (fixed, found) = trailing_whitespace::clean(content);
        assert_eq!(fixed, expected, "{:?}", content);
        assert_eq!(found, changed, "{:?}", content);
    }
}

#[test]
fn trailing_whitespace_reports_in_a_dry_run_and_rewrites_in_an_enforcing_one() {
    let files = vec![text("clean.txt", "ok\n"), text("dirty.txt", "a \nb"), binary("x.bin")];
    let mut ctx = dry();
    let report = trailing_whitespace::run_with_ctx(&mut ctx, &files);
    assert!(report.changed);
    assert_eq!(report.exit_code, 0);
    assert!(report.rewrites.is_empty());
    let entry = ctx.changelog.add_entry("trailing-whitespace");
    assert_eq!(
        entry.changes,
        vec!["Would remove trailing whitespace from dirty.txt", "Skipped non-UTF8 file: x.bin"]
    );
    assert_eq!(entry.files_checked, vec!["clean.txt", "dirty.txt", "x.bin"]);
    let mut ctx = RunContext::default();
    let report = trailing_whitespace::run_with_ctx(&mut ctx, &files);
    assert_eq!(report.exit_code, 1);
    assert_eq!(report.rewrites, vec![("dirty.txt".to_string(), "a\nb\n".to_string())]);
    let entry = ctx.changelog.add_entry("trailing-whitespace");
    assert_eq!(
        entry.changes,
        vec!["Removed trailing whitespace from dirty.txt", "Skipped non-UTF8 file: x.bin"]
    );
    assert_eq!(entry.files_modified, vec!["dirty.txt"]);
    assert!(!trailing_whitespace::run(&vec![text("clean.txt", "ok\n")]).changed);
}

#[test]
fn formats_json() {
    let file = text("a.json", "{\"a\":1}");
    let mut ctx = RunContext::default();
    let out = pretty_format_json::format_file_with_ctx(&mut ctx, &file).unwrap();
    assert!(out.changed);
}

#[test]
fn a_compact_document_is_rewritten_and_listed_as_modified() {
    let file = text("a.json", "{\"a\":1}");
    let mut ctx = RunContext::default();
    let out = pretty_format_json::format_file_with_ctx(&mut ctx, &file);
    match out {
        Ok(out) => {
            assert!(out.changed);
            assert_eq!(out.rewrite, Some("{\n  \"a\": 1\n}\n".to_string()));
        }
        Err(e) => panic!("the formatter gave up: {:?}", e),
    }
    let entry = ctx.changelog.add_entry("pretty-format-json");
    assert_eq!(entry.files_modified, vec!["a.json"]);
    assert_eq!(entry.files_checked, vec!["a.json"]);
    assert_eq!(entry.changes, vec!["Formatted JSON in a.json"]);
}

#[test]
fn json_is_rewritten_in_its_pretty_form() {
    let file = text("a.json", "{\"b\":[1,2],\"a\":{\"c\":null}}");
    let mut ctx = RunContext::default();
    let out = pretty_format_json::format_file_with_ctx(&mut ctx, &file).unwrap();
    assert!(out.changed);
    let expected = "{\n  \"a\": {\n    \"c\": null\n  },\n  \"b\": [\n    1,\n    2\n  ]\n}\n";
    assert_eq!(out.rewrite, Some(expected.to_string()));
    let entry = ctx.changelog.add_entry("pretty-format-json");
    assert_eq!(entry.changes, vec!["Formatted JSON in a.json"]);
    assert_eq!(entry.files_modified, vec!["a.json"]);
    let again = pretty_format_json::run(&vec![text("a.json", expected)]).unwrap();
    assert!(!again.changed);
    assert_eq!(again.exit_code, 0);
}

#[test]
fn json_formatting_leaves_other_files_alone() {
    let mut ctx = dry();
    let files = vec![text("bad.json", "{not json"), binary("x.bin"), text("a.json", "[1]")];
    let report = pretty_format_json::run_with_ctx(&mut ctx, &files).unwrap();
    assert!(report.changed);
    assert_eq!(report.exit_code, 0);
    assert!(report.rewrites.is_empty());
    let entry = ctx.changelog.add_entry("pretty-format-json");
    assert_eq!(
        entry.changes,
        vec!["Skipped non-UTF8 file: x.bin", "Would format JSON in a.json"]
    );
    assert_eq!(entry.files_checked, vec!["bad.json", "x.bin", "a.json"]);
}

#[test]
fn settle_compares_with_the_pretty_form_and_a_line_feed() {
    let mut ctx = RunContext::default();
    let out = pretty_format_json::settle(&mut ctx, "f", "[]\n", "[]");
    assert!(!out.changed);
    assert!(!ctx.changelog.has_changes());
    let out = pretty_format_json::settle(&mut ctx, "f", "[]", "[]");
    assert!(out.changed);
    assert_eq!(out.rewrite, Some("[]\n".to_string()));
}

#[test]
fn a_report_gathers_the_outcomes() {
    let mut report = HookReport::new();
    assert!(!report.changed);
    assert_eq!(report.exit_code, 0);
    report.absorb(false, "a", FileOutcome { changed: false, rewrite: None });
    assert_eq!(report.exit_code, 0);
    report.absorb(false, "b", FileOutcome { changed: true, rewrite: Some("new".to_string()) });
    report.absorb(false, "c", FileOutcome { changed: false, rewrite: None });
    assert!(report.changed);
    assert_eq!(report.exit_code, 1);
    assert_eq!(report.rewrites, vec![("b".to_string(), "new".to_string())]);
    let mut report = HookReport::new();
    report.absorb(true, "b", FileOutcome { changed: true, rewrite: None });
    assert!(report.changed);
    assert_eq!(report.exit_code, 0);
}
