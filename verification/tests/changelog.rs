use precommit_rs::changelog::{Changelog, ChangelogEntry};

#[test]
fn a_new_changelog_has_no_changes() {
    let log = Changelog::new();
    assert!(!log.has_changes());
    assert_eq!(log.render("T"), "# Pre-commit Changes T\n\n");
    assert_eq!(log.write_if_changed("T", "old"), None);
}

#[test]
fn a_default_entry_is_empty() {
    let e = ChangelogEntry::default();
    assert_eq!(e.hook_id, "");
    assert!(e.changes.is_empty());
    assert!(e.files_checked.is_empty());
    assert!(e.files_modified.is_empty());
}

#[test]
fn add_entry_opens_an_entry_once() {
    let mut log = Changelog::new();
    {
        let e = log.add_entry("a");
        assert_eq!(e.hook_id, "a");
        assert!(e.changes.is_empty());
        e.changes.push("first".to_string());
    }
    log.add_entry("b");
    {
        let e = log.add_entry("a");
        assert_eq!(e.changes, vec!["first"]);
    }
    assert!(!log.has_changes());
}

#[test]
fn checked_files_alone_are_no_change() {
    let mut log = Changelog::new();
    log.record_file_checked("h", "a.txt");
    log.record_files_checked("h", &vec!["b.txt".to_string(), "c.txt".to_string()]);
    assert!(!log.has_changes());
    assert_eq!(log.add_entry("h").files_checked, vec!["a.txt", "b.txt", "c.txt"]);
    assert_eq!(log.write_if_changed("T", ""), None);
}

#[test]
fn changes_and_modified_files_are_changes() {
    let mut log = Changelog::new();
    log.record_change("h", "did it");
    assert!(log.has_changes());
    let mut log = Changelog::new();
    log.record_file_modified("h", "a.txt");
    assert!(log.has_changes());
    assert_eq!(log.add_entry("h").files_modified, vec!["a.txt"]);
}

#[test]
fn the_changelog_lists_each_hook_with_its_sections() {
    let mut log = Changelog::new();
    log.record_file_checked("eof", "a.txt");
    log.record_file_checked("eof", "b.txt");
    log.record_file_checked("eof", "c.txt");
    log.record_change("eof", "Normalized newlines at end of b.txt");
    log.record_file_modified("eof", "b.txt");
    log.record_file_checked("quiet", "a.txt");
    log.record_change("yaml", "Invalid YAML in x.yaml: oops");
    let text = log.render("2024-01-02 03:04:05");
    assert_eq!(
        text,
        "# Pre-commit Changes 2024-01-02 03:04:05\n\n\
         ## Hook: eof\n\n\
         ### Changes:\n- Normalized newlines at end of b.txt\n\n\
         ### Modified Files:\n- `b.txt`\n\n\
         ### Checked Files (no changes):\n- `a.txt`\n- `c.txt`\n\n\
         ## Hook: yaml\n\n\
         ### Changes:\n- Invalid YAML in x.yaml: oops\n\n"
    );
}

#[test]
fn the_new_text_is_set_before_the_existing_content() {
    let mut log = Changelog::new();
    log.record_change("h", "c");
    let fresh = "# Pre-commit Changes T\n\n## Hook: h\n\n### Changes:\n- c\n\n";
    assert_eq!(log.write_if_changed("T", ""), Some(fresh.to_string()));
    assert_eq!(
        log.write_if_changed("T", "# older\n"),
        Some(format!("{}\n---\n\n# older\n", fresh))
    );
}

#[test]
fn an_entry_keeps_the_id_it_was_opened_for() {
    let mut log = Changelog::new();
    log.add_entry("a").hook_id = "renamed".to_string();
    log.record_change("a", "x");
    assert_eq!(log.add_entry("a").changes, vec!["x"]);
    assert_eq!(log.render("T"), "# Pre-commit Changes T\n\n## Hook: renamed\n\n### Changes:\n- x\n\n");
}

#[test]
fn entries_are_opened_once_per_id() {
    let mut log = Changelog::new();
    log.record_change("b", "1");
    log.record_file_checked("a", "f");
    log.record_change("b", "2");
    log.record_file_modified("a", "f");
    log.record_files_checked("b", &vec!["g".to_string()]);
    assert_eq!(
        log.render("T"),
        "# Pre-commit Changes T\n\n\
         ## Hook: b\n\n### Changes:\n- 1\n- 2\n\n### Checked Files (no changes):\n- `g`\n\n\
         ## Hook: a\n\n### Modified Files:\n- `f`\n\n"
    );
}
