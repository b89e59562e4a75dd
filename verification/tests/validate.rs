use precommit_rs::validate::{
    check_dry_run, check_enforcing, dry_run_probe, failing_probe, is_validator_hook,
    validate_hook, ProbeContent, ValidateError,
};

#[test]
fn the_two_checks_are_validators() {
    assert!(is_validator_hook("check-yaml"));
    assert!(is_validator_hook("check-added-large-files"));
    assert!(!is_validator_hook("end-of-file-fixer"));
    assert!(!is_validator_hook("trailing-whitespace"));
    assert!(!is_validator_hook("pretty-format-json"));
    assert!(!is_validator_hook(""));
}

#[test]
fn the_dry_run_probe_is_text_with_two_line_feeds() {
    let probe = dry_run_probe();
    assert_eq!(probe.name, "test.txt");
    assert!(matches!(&probe.content, ProbeContent::Text(t) if t == "test content\n\n"));
}

#[test]
fn each_hook_is_probed_with_a_file_it_must_object_to() {
    let probe = failing_probe("check-yaml");
    assert_eq!(probe.name, "invalid.yaml");
    assert!(matches!(&probe.content, ProbeContent::Text(t) if t == "invalid: [yaml: }"));
    let probe = failing_probe("check-added-large-files");
    assert_eq!(probe.name, "large.txt");
    assert!(matches!(probe.content, ProbeContent::Filled(b'x', 1_000_000)));
    for name in ["end-of-file-fixer", "trailing-whitespace", "anything"] {
        let probe = failing_probe(name);
        assert_eq!(probe.name, "needs-fixing.txt");
        assert!(matches!(&probe.content, ProbeContent::Text(t) if t == "test content"));
    }
}

#[test]
fn a_fixer_must_not_change_files_in_a_dry_run() {
    assert_eq!(check_dry_run("end-of-file-fixer", "a\n\n", "a\n\n"), Ok(()));
    assert_eq!(
        check_dry_run("end-of-file-fixer", "a\n\n", "a\n"),
        Err(ValidateError::ModifiedInDryRun)
    );
    assert_eq!(check_dry_run("check-yaml", "a\n\n", "a\n"), Ok(()));
}

#[test]
fn a_hook_must_signal_what_it_objects_to() {
    assert_eq!(check_enforcing(true), Ok(()));
    assert_eq!(check_enforcing(false), Err(ValidateError::NoFailureSignalled));
}

#[test]
fn validation_judges_the_dry_run_first() {
    assert_eq!(validate_hook("trailing-whitespace", "a", "a", true), Ok(()));
    assert_eq!(
        validate_hook("trailing-whitespace", "a", "b", false),
        Err(ValidateError::ModifiedInDryRun)
    );
    assert_eq!(
        validate_hook("trailing-whitespace", "a", "a", false),
        Err(ValidateError::NoFailureSignalled)
    );
    assert_eq!(validate_hook("check-yaml", "a", "b", true), Ok(()));
}
