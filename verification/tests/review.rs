use jet_black::finalization::ChangesetState;
use jet_black::review::{
    append_bytes, bounded_evidence, check_result, check_spec, check_status, evidence_bytes,
    finding_for_result, finish_review, minimal_environment, prepare_check, prepend_bounded, process_diagnostic,
    require_program, review_preflight, validate_changed_files, validate_options,
    validate_review_request, ChangedFileMetadata, ReviewCheckKind, ReviewCheckResult,
    ReviewCheckStatus, ReviewError, ReviewOptions, ReviewPrograms, ReviewProgress, ReviewSubject,
    TerminalOutcome,
};
use jet_black::time::Duration;

fn subject() -> ReviewSubject {
    ReviewSubject {
        repository_id: 1,
        changeset_id: 2,
        changeset_repository_id: 1,
        changeset_state: ChangesetState::Reviewable,
        worktree_changeset_id: 2,
    }
}

#[test]
fn review_options_default_to_the_safety_limits() {
    let options = ReviewOptions::standard(4096);
    assert_eq!(options.timeout.as_secs(), 600);
    assert_eq!(options.output_limit, 4096);
    assert!(!options.allow_unsandboxed_checks);
    assert_eq!(validate_options(&options, 4096), Ok(()));
}

#[test]
fn review_options_outside_the_limits_are_refused() {
    let long = ReviewOptions { timeout: Duration::from_millis(600_001), output_limit: 10, allow_unsandboxed_checks: false };
    assert_eq!(validate_options(&long, 100), Err(ReviewError::InvalidOptions));
    let zero = ReviewOptions { timeout: Duration::from_secs(0), output_limit: 10, allow_unsandboxed_checks: false };
    assert_eq!(validate_options(&zero, 100), Err(ReviewError::InvalidOptions));
    let big = ReviewOptions { timeout: Duration::from_secs(1), output_limit: 101, allow_unsandboxed_checks: false };
    assert_eq!(validate_options(&big, 100), Err(ReviewError::InvalidOptions));
}

#[test]
fn review_requests_are_checked_in_order() {
    let (format, typecheck, test) = (ReviewCheckKind::Format, ReviewCheckKind::Typecheck, ReviewCheckKind::Test);
    let (secrets, audit) = (ReviewCheckKind::SecretScan, ReviewCheckKind::DependencyAudit);
    assert_eq!(validate_review_request(&subject(), &[format, test]), Ok(()));
    assert_eq!(validate_review_request(&subject(), &[format, test, format]), Err(ReviewError::DuplicateCheck));
    assert_eq!(
        validate_review_request(&subject(), &[format, typecheck, test, secrets, audit, format]),
        Err(ReviewError::TooManyChecks)
    );
    let active = ReviewSubject { changeset_state: ChangesetState::Active, ..subject() };
    assert_eq!(validate_review_request(&active, &[format]), Err(ReviewError::InvalidReviewState));
    let foreign = ReviewSubject { worktree_changeset_id: 9, ..subject() };
    assert_eq!(validate_review_request(&foreign, &[]), Err(ReviewError::InvalidReviewState));
}

#[test]
fn changed_files_must_be_regular_and_small() {
    let paths = vec![
        ("gone.rs".to_owned(), ChangedFileMetadata::Missing),
        ("small.rs".to_owned(), ChangedFileMetadata::Regular { len: 10 }),
    ];
    assert_eq!(validate_changed_files(&paths, 10), Ok(()));
    let link = vec![("link".to_owned(), ChangedFileMetadata::Other)];
    assert_eq!(validate_changed_files(&link, 10), Err(ReviewError::UnsupportedChangedPath("link".to_owned())));
    let big = vec![("big.bin".to_owned(), ChangedFileMetadata::Regular { len: 11 })];
    assert_eq!(validate_changed_files(&big, 10), Err(ReviewError::ChangedFileTooLarge("big.bin".to_owned())));
}

#[test]
fn preflight_requires_the_same_head_and_a_stable_change() {
    assert_eq!(review_preflight("abc", "abc", 2, true), Ok(()));
    assert_eq!(review_preflight("abc", "abd", 2, true), Err(ReviewError::HeadChanged));
    assert_eq!(review_preflight("abc", "abc", 0, true), Err(ReviewError::NoChangedPaths));
    assert_eq!(review_preflight("abc", "abc", 2, false), Err(ReviewError::WorktreeChanged));
}

#[test]
fn check_status_follows_the_process_outcome() {
    assert_eq!(check_status(TerminalOutcome::Completed(0), false), ReviewCheckStatus::Passed);
    assert_eq!(check_status(TerminalOutcome::Completed(0), true), ReviewCheckStatus::Failed);
    assert_eq!(check_status(TerminalOutcome::Completed(2), false), ReviewCheckStatus::Failed);
    assert_eq!(check_status(TerminalOutcome::TimedOut, false), ReviewCheckStatus::TimedOut);
    assert_eq!(check_status(TerminalOutcome::Cancelled, false), ReviewCheckStatus::Failed);
}

#[test]
fn diagnostics_describe_unsuccessful_processes() {
    assert_eq!(process_diagnostic(TerminalOutcome::Completed(0), false), None);
    assert_eq!(process_diagnostic(TerminalOutcome::Completed(-3), false).as_deref(), Some("process exited with status -3"));
    assert_eq!(process_diagnostic(TerminalOutcome::Completed(0), true).as_deref(), Some("process output exceeded the review limit"));
    assert_eq!(process_diagnostic(TerminalOutcome::TimedOut, false).as_deref(), Some("process exceeded the review timeout"));
    assert_eq!(process_diagnostic(TerminalOutcome::Failed, false).as_deref(), Some("process supervision failed"));
}

#[test]
fn evidence_joins_diagnostic_and_streams_within_the_limit() {
    assert_eq!(bounded_evidence(Some("diag"), b"out", b"err", 100), "diag\nout\nerr");
    assert_eq!(bounded_evidence(None, b"out", b"", 100), "out");
    assert_eq!(bounded_evidence(Some("diag"), b"", b"", 100), "diag");
    assert_eq!(bounded_evidence(Some("diag"), b"out", b"err", 6), "diag\no");
    assert_eq!(evidence_bytes(None, b"", b"err", 0), Vec::<u8>::new());
    assert_eq!(bounded_evidence(None, b"\xff", b"", 10), "\u{fffd}");
}

#[test]
fn appended_bytes_stop_at_the_limit() {
    let mut target = b"ab".to_vec();
    append_bytes(&mut target, b"cdef", 4);
    assert_eq!(target, b"abcd");
    append_bytes(&mut target, b"gh", 4);
    assert_eq!(target, b"abcd");
}

#[test]
fn a_note_is_put_before_existing_evidence() {
    assert_eq!(prepend_bounded("note", "old", 100), "note\nold");
    assert_eq!(prepend_bounded("note", "", 100), "note");
    assert_eq!(prepend_bounded("note", "old", 3), "not");
}

#[test]
fn check_environment_is_minimal_and_fixed() {
    let env = minimal_environment("/usr/bin:/bin");
    assert_eq!(env.len(), 8);
    assert_eq!(env[0], ("PATH".to_owned(), "/usr/bin:/bin".to_owned()));
    assert_eq!(env[1], ("HOME".to_owned(), "/dev/null".to_owned()));
    assert_eq!(env[7], ("GIT_OPTIONAL_LOCKS".to_owned(), "0".to_owned()));
}

#[test]
fn missing_tools_make_checks_unavailable() {
    let installed = "/usr/bin/cargo".to_owned();
    assert_eq!(require_program(Some(&installed), "cargo"), Ok(&installed));
    assert_eq!(require_program(None, "gitleaks"), Err("gitleaks is not installed".to_owned()));
}

fn programs() -> ReviewPrograms {
    ReviewPrograms {
        cargo: Some("/usr/bin/cargo".to_owned()),
        cargo_deny: None,
        gitleaks: Some("/usr/bin/gitleaks".to_owned()),
        search_path: "/usr/bin".to_owned(),
    }
}

#[test]
fn checks_need_explicit_trust_and_their_tool() {
    let untrusted = ReviewOptions::standard(1024);
    assert_eq!(
        check_spec(&programs(), &untrusted, ReviewCheckKind::Format, "/w").err().as_deref(),
        Some("check requires explicit trust because local sandboxing is unavailable")
    );
    let trusted = ReviewOptions { allow_unsandboxed_checks: true, ..ReviewOptions::standard(1024) };
    assert_eq!(
        check_spec(&programs(), &trusted, ReviewCheckKind::DependencyAudit, "/w").err().as_deref(),
        Some("cargo-deny is not installed")
    );
    let invocation = check_spec(&programs(), &trusted, ReviewCheckKind::SecretScan, "/w").unwrap();
    assert_eq!(invocation.program, "/usr/bin/gitleaks");
    assert_eq!(invocation.arguments, vec!["detect", "--no-banner", "--redact", "."]);
    assert_eq!(invocation.current_dir, "/w");
    assert_eq!(invocation.output_limit, 1024);
    let format = check_spec(&programs(), &trusted, ReviewCheckKind::Format, "/w").unwrap();
    assert_eq!(format.arguments, vec!["fmt", "--all", "--", "--check"]);
}

#[test]
fn a_check_that_changes_the_worktree_is_mutated() {
    let passed = check_result(ReviewCheckKind::Test, TerminalOutcome::Completed(0), b"ok", b"", false, false, true, 100);
    assert_eq!(passed.status, ReviewCheckStatus::Passed);
    assert_eq!(passed.evidence, "ok");
    let mutated = check_result(ReviewCheckKind::Test, TerminalOutcome::Completed(0), b"ok", b"", false, false, false, 100);
    assert_eq!(mutated.status, ReviewCheckStatus::Mutated);
    assert_eq!(mutated.evidence, "check changed the worktree or HEAD\nok");
}

#[test]
fn failed_checks_leave_findings_and_mutation_stops_the_review() {
    let mut progress = ReviewProgress::new();
    let passed = ReviewCheckResult { kind: ReviewCheckKind::Format, status: ReviewCheckStatus::Passed, evidence: String::new() };
    assert!(!progress.record(2, "blob", passed));
    assert!(progress.findings.is_empty());
    let failed = ReviewCheckResult { kind: ReviewCheckKind::Test, status: ReviewCheckStatus::Failed, evidence: "boom".to_owned() };
    assert!(!progress.record(2, "blob", failed));
    assert_eq!(progress.findings.len(), 1);
    assert_eq!(progress.findings[0].category, "review_test");
    assert_eq!(progress.findings[0].severity, "warning");
    assert_eq!(progress.findings[0].title, "Test check Failed");
    let mutated = ReviewCheckResult { kind: ReviewCheckKind::SecretScan, status: ReviewCheckStatus::Mutated, evidence: String::new() };
    assert!(progress.record(2, "blob", mutated));
    assert_eq!(progress.checks.len(), 3);
    assert_eq!(progress.findings[1].severity, "error");
    assert_eq!(finish_review(true, false), Ok(()));
    assert_eq!(finish_review(false, false), Err(ReviewError::WorktreeChanged));
}

#[test]
fn findings_carry_the_check_category_and_evidence() {
    let result = ReviewCheckResult { kind: ReviewCheckKind::DependencyAudit, status: ReviewCheckStatus::TimedOut, evidence: "slow".to_owned() };
    let finding = finding_for_result(9, "blob-id", &result);
    assert_eq!(finding.changeset_id, 9);
    assert_eq!(finding.blob_identity, "blob-id");
    assert_eq!(finding.category, "review_dependency_audit");
    assert_eq!(finding.severity, "error");
    assert_eq!(finding.title, "DependencyAudit check TimedOut");
    assert_eq!(finding.evidence, "slow");
    assert_eq!(ReviewCheckKind::SecretScan.category(), "review_secret_scan");
}

#[test]
fn checks_that_cannot_run_are_unavailable_results() {
    let untrusted = ReviewOptions::standard(1024);
    let refused = prepare_check(&programs(), &untrusted, ReviewCheckKind::Test, "/w").unwrap_err();
    assert_eq!(refused.kind, ReviewCheckKind::Test);
    assert_eq!(refused.status, ReviewCheckStatus::Unavailable);
    assert_eq!(refused.evidence, "check requires explicit trust because local sandboxing is unavailable");
    let trusted = ReviewOptions { allow_unsandboxed_checks: true, ..ReviewOptions::standard(1024) };
    let missing = prepare_check(&programs(), &trusted, ReviewCheckKind::DependencyAudit, "/w").unwrap_err();
    assert_eq!(missing.status, ReviewCheckStatus::Unavailable);
    assert_eq!(missing.evidence, "cargo-deny is not installed");
    let ready = prepare_check(&programs(), &trusted, ReviewCheckKind::Typecheck, "/w").unwrap();
    assert_eq!(ready.arguments, vec!["check", "--workspace", "--all-targets", "--all-features"]);
}

#[test]
fn valid_output_is_evidence_as_it_stands() {
    assert_eq!(bounded_evidence(None, b"checked", b"", 64), "checked");
    let mutated = check_result(ReviewCheckKind::Format, TerminalOutcome::Completed(0), b"", b"", false, false, false, 64);
    assert_eq!(mutated.evidence, "check changed the worktree or HEAD");
    assert_eq!(bounded_evidence(None, &[0x61, 0xff], b"", 64), "a\u{fffd}");
}

#[test]
fn search_paths_must_list_absolute_directories() {
    let normalize = jet_black::review::normalize_search_path;
    assert_eq!(normalize("/usr/bin:/bin"), Ok("/usr/bin:/bin".to_owned()));
    assert_eq!(normalize("/usr/bin:bin"), Err(ReviewError::UnsafeSearchPath));
    assert_eq!(normalize("/usr/bin:"), Err(ReviewError::UnsafeSearchPath));
    assert_eq!(normalize(""), Err(ReviewError::UnsafeSearchPath));
    assert_eq!(normalize("relative"), Err(ReviewError::UnsafeSearchPath));
}
