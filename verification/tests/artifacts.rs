use jet_black::artifacts::{
    is_sha256, segment_file_matches, segment_metadata, segment_name, stored_usage_bytes, to_i64, ArtifactPolicy, ArtifactReservation,
    ArtifactState, ArtifactStream, LocalArtifactStore,
};
use jet_black::digest::digest;
use jet_black::error::PersistenceError;
use jet_black::redaction::redact_bounded;
use jet_black::store::{SchemaProbe, SqliteStore};
use jet_black::time::Duration;

const ABC_SHA256: &str = "ba7816bf8f01cfea414140de5dae2223b00361a396177a9cb410ff61f20015ad";

#[test]
fn truncated_secret_prefix_is_redacted() {
    let (redacted, limited) =
        redact_bounded(b"token=super-secr", &[b"super-secret".to_vec()], 128, true);

    assert_eq!(redacted, b"token=[REDACTED]");
    assert!(!limited);
}

#[test]
fn whole_secret_is_replaced_by_marker() {
    let (redacted, limited) =
        redact_bounded(b"a super-secret b", &[b"super-secret".to_vec()], 128, false);
    assert_eq!(redacted, b"a [REDACTED] b");
    assert!(!limited);
}

#[test]
fn text_without_secrets_is_kept() {
    let (redacted, limited) = redact_bounded(b"plain output", &[b"hidden".to_vec()], 128, false);
    assert_eq!(redacted, b"plain output");
    assert!(!limited);
}

#[test]
fn redaction_respects_the_limit() {
    let (redacted, limited) = redact_bounded(b"0123456789", &[], 4, false);
    assert_eq!(redacted, b"0123");
    assert!(limited);
}

#[test]
fn untruncated_prefix_of_a_secret_is_kept() {
    let (redacted, limited) =
        redact_bounded(b"token=super-secr", &[b"super-secret".to_vec()], 128, false);
    assert_eq!(redacted, b"token=super-secr");
    assert!(!limited);
}

#[test]
fn digest_of_abc_is_the_known_sha256() {
    assert_eq!(digest(b"abc"), ABC_SHA256);
    assert!(is_sha256(&digest(b"")));
}

#[test]
fn sha256_text_must_be_lower_case_hex_of_64_digits() {
    assert!(is_sha256(ABC_SHA256));
    assert!(!is_sha256(&ABC_SHA256.to_uppercase()));
    assert!(!is_sha256(&ABC_SHA256[..63]));
}

#[test]
fn segment_names_are_zero_padded() {
    assert_eq!(segment_name(2), "00000002.segment");
    assert_eq!(segment_name(123456789), "123456789.segment");
}

#[test]
fn content_is_split_into_digested_segments() {
    let segments = segment_metadata(b"abcabcab", 3).unwrap();
    assert_eq!(segments.len(), 3);
    assert_eq!(segments[0].sequence, 0);
    assert_eq!(segments[0].stored_bytes, 3);
    assert_eq!(segments[0].sha256, ABC_SHA256);
    assert_eq!(segments[1].sha256, ABC_SHA256);
    assert_eq!(segments[2].sequence, 2);
    assert_eq!(segments[2].stored_bytes, 2);
    assert_eq!(segments[2].sha256, digest(b"ab"));
}

#[test]
fn sizes_convert_to_i64_only_when_they_fit() {
    assert_eq!(to_i64(42), Ok(42));
    assert_eq!(to_i64(usize::MAX), Err(PersistenceError::ArtifactMetadataCorrupt));
}

#[test]
fn stream_and_state_names_round_trip() {
    assert_eq!(ArtifactStream::Stdout.kind(), "provider_stdout");
    assert_eq!(ArtifactStream::parse("provider_stderr"), Ok(ArtifactStream::Stderr));
    assert_eq!(ArtifactStream::parse("stdout"), Err(PersistenceError::ArtifactMetadataCorrupt));
    assert_eq!(ArtifactState::Deleting.as_str(), "deleting");
    assert_eq!(ArtifactState::parse("complete"), Ok(ArtifactState::Complete));
    assert_eq!(ArtifactState::parse("done"), Err(PersistenceError::ArtifactMetadataCorrupt));
}

fn policy(segment: usize, per_run: usize, total: usize) -> ArtifactPolicy {
    ArtifactPolicy {
        segment_bytes: segment,
        per_run_bytes: per_run,
        total_bytes: total,
        retention: Duration::from_secs(60),
    }
}

fn store() -> SqliteStore {
    let probe = SchemaProbe {
        recorded_version: 5,
        has_execution_schema: true,
        has_product_schema: false,
        legacy_version: 0,
    };
    SqliteStore::open("/tmp/jet-black.sqlite", probe).unwrap().0
}

#[test]
fn artifact_policy_must_nest_its_limits() {
    assert!(policy(4, 8, 16).validate().is_ok());
    assert_eq!(policy(0, 8, 16).validate(), Err(PersistenceError::InvalidArtifactPolicy));
    assert_eq!(policy(9, 8, 16).validate(), Err(PersistenceError::InvalidArtifactPolicy));
    assert_eq!(policy(4, 32, 16).validate(), Err(PersistenceError::InvalidArtifactPolicy));
    let mut zero_retention = policy(4, 8, 16);
    zero_retention.retention = Duration::from_secs(0);
    assert_eq!(zero_retention.validate(), Err(PersistenceError::InvalidArtifactPolicy));
}

#[test]
fn artifact_root_must_be_absolute() {
    assert_eq!(
        LocalArtifactStore::new(store(), "relative/root", policy(4, 8, 16)).err(),
        Some(PersistenceError::InvalidArtifactRoot)
    );
    let opened = LocalArtifactStore::new(store(), "/var/artifacts", policy(4, 8, 16)).unwrap();
    assert_eq!(opened.root(), "/var/artifacts");
}

#[test]
fn capacity_is_the_smaller_remaining_quota() {
    let artifacts = LocalArtifactStore::new(store(), "/a", policy(4, 8, 16)).unwrap();
    assert_eq!(artifacts.available_capacity(0, 0), 8);
    assert_eq!(artifacts.available_capacity(12, 0), 4);
    assert_eq!(artifacts.available_capacity(20, 0), 0);
    assert_eq!(artifacts.available_capacity(0, 6), 2);
}

#[test]
fn reservation_keeps_what_the_quota_allows() {
    let artifacts = LocalArtifactStore::new(store(), "/a", policy(4, 8, 16)).unwrap();
    let reservation = ArtifactReservation {
        run_id: 1,
        changeset_id: 2,
        supervision_id: 3,
        stream: ArtifactStream::Stdout,
        source_bytes: 10,
        content: b"0123456789",
        process_truncated: false,
        quota_limited: false,
        now_unix_ms: 1_000,
    };
    let artifact = artifacts.reserve(&reservation, 0, 2).unwrap().unwrap();
    assert_eq!(artifact.stored_bytes, 6);
    assert_eq!(artifact.segments.len(), 2);
    assert_eq!(artifact.segments[1].stored_bytes, 2);
    assert_eq!(artifact.sha256, digest(b"012345"));
    assert!(artifact.quota_limited);
    assert_eq!(artifact.state, ArtifactState::Writing);
    assert_eq!(artifact.expires_at_unix_ms, 61_000);
    assert!(artifacts.reserve(&reservation, 16, 0).unwrap().is_none());
}

#[test]
fn verified_segment_is_returned_and_tampering_is_detected() {
    let artifacts = LocalArtifactStore::new(store(), "/a", policy(4, 8, 16)).unwrap();
    let reservation = ArtifactReservation {
        run_id: 1,
        changeset_id: 2,
        supervision_id: 3,
        stream: ArtifactStream::Stderr,
        source_bytes: 6,
        content: b"abcdef",
        process_truncated: false,
        quota_limited: false,
        now_unix_ms: 0,
    };
    let mut artifact = artifacts.reserve(&reservation, 0, 0).unwrap().unwrap();
    artifact.state = ArtifactState::Complete;
    let contents = vec![b"abcd".to_vec(), b"ef".to_vec()];
    assert_eq!(artifacts.verify_artifact_content(&artifact, &contents, 1), Ok(b"ef".to_vec()));
    let tampered = vec![b"abcd".to_vec(), b"eX".to_vec()];
    assert!(artifacts.verify_artifact_content(&artifact, &tampered, 1).is_err());
    assert_eq!(artifacts.segment_range(&artifact.segments[1], 6), Ok((4, 6)));
}

#[test]
fn secret_free_output_is_only_clipped() {
    assert_eq!(redact_bounded(b"hello world", &[b"xyz".to_vec()], 5, false), (b"hello".to_vec(), true));
    assert_eq!(redact_bounded(b"hello", &[b"xyz".to_vec()], 5, false), (b"hello".to_vec(), false));
}

#[test]
fn redaction_ignores_order_duplicates_and_empty_secrets() {
    let input = b"pw=hunter2 and key=abc123 tail=hunt";
    let a = vec![b"hunter2".to_vec(), b"abc123".to_vec()];
    let b = vec![Vec::new(), b"abc123".to_vec(), b"hunter2".to_vec(), b"abc123".to_vec()];
    for limit in [0usize, 7, 20, 128] {
        for truncated in [false, true] {
            assert_eq!(redact_bounded(input, &a, limit, truncated), redact_bounded(input, &b, limit, truncated));
        }
    }
    assert_eq!(redact_bounded(input, &b, 128, true).0, b"pw=[REDACTED] and key=[REDACTED] tail=[REDACTED]");
}

#[test]
fn a_whole_capture_stays_within_the_quotas() {
    let artifacts = LocalArtifactStore::new(store(), "/a", policy(4, 16, 20)).unwrap();
    let (out, _) = artifacts
        .capture_stream((1, 2, 3), ArtifactStream::Stdout, b"0123456789ab", false, &[], (6, 2), 5)
        .unwrap()
        .unwrap();
    assert_eq!(out.stored_bytes, 12);
    let (err, kept) = artifacts
        .capture_stream((1, 2, 3), ArtifactStream::Stderr, b"abcdefgh", false, &[], (18, 14), 5)
        .unwrap()
        .unwrap();
    assert_eq!(kept, b"ab");
    assert!(err.quota_limited);
    assert_eq!(6 + out.stored_bytes + err.stored_bytes, 20);
}

#[test]
fn retention_and_run_deletion_pick_their_artifacts() {
    let artifacts = LocalArtifactStore::new(store(), "/a", policy(4, 8, 16)).unwrap();
    let make = |run_id: u128, now: i64, state: ArtifactState| {
        let reservation = ArtifactReservation {
            run_id,
            changeset_id: 2,
            supervision_id: 3,
            stream: ArtifactStream::Stdout,
            source_bytes: 2,
            content: b"ok",
            process_truncated: false,
            quota_limited: false,
            now_unix_ms: now,
        };
        let mut artifact = artifacts.reserve(&reservation, 0, 0).unwrap().unwrap();
        artifact.state = state;
        artifact
    };
    let listed = vec![
        make(1, 0, ArtifactState::Complete),
        make(2, 0, ArtifactState::Writing),
        make(1, 50_000, ArtifactState::Complete),
        make(2, -1_000, ArtifactState::Complete),
    ];
    assert_ne!(listed[0].id, listed[1].id);
    assert_eq!(artifacts.prune_expired(&listed, 60_000), vec![listed[0].id, listed[3].id]);
    assert_eq!(artifacts.prune_expired(&listed, 59_000), vec![listed[3].id]);
    assert_eq!(artifacts.delete_run_artifacts(&listed, 2), vec![listed[1].id, listed[3].id]);
    assert!(artifacts.delete_run_artifacts(&listed, 7).is_empty());
}

#[test]
fn a_second_artifact_recovery_finds_nothing() {
    let artifacts = LocalArtifactStore::new(store(), "/a", policy(4, 8, 16)).unwrap();
    let listed = [(1, ArtifactState::Writing), (2, ArtifactState::Complete), (3, ArtifactState::Deleting)];
    let removed = artifacts.recover_incomplete(&listed);
    let remaining: Vec<(u128, ArtifactState)> =
        listed.iter().copied().filter(|(id, _)| !removed.contains(id)).collect();
    assert_eq!(remaining, vec![(2, ArtifactState::Complete)]);
    assert!(artifacts.recover_incomplete(&remaining).is_empty());
}

#[test]
fn recovery_removes_incomplete_artifacts() {
    let artifacts = LocalArtifactStore::new(store(), "/a", policy(4, 8, 16)).unwrap();
    let removed = artifacts.recover_incomplete(&[
        (1, ArtifactState::Complete),
        (2, ArtifactState::Writing),
        (3, ArtifactState::Deleting),
    ]);
    assert_eq!(removed, vec![2, 3]);
}

#[test]
fn captured_streams_are_redacted_within_the_quota() {
    let artifacts = LocalArtifactStore::new(store(), "/a", policy(4, 16, 32)).unwrap();
    let secrets = vec![b"hunter2".to_vec()];
    let (artifact, bytes) = artifacts
        .capture_stream((1, 2, 3), ArtifactStream::Stdout, b"pw=hunter2!", false, &secrets, (0, 0), 5)
        .unwrap()
        .unwrap();
    assert_eq!(bytes, b"pw=[REDACTED]!");
    assert_eq!(artifact.stored_bytes, 14);
    assert_eq!(artifact.source_bytes, 11);
    assert_eq!(artifact.segments.len(), 4);
    assert!(!artifact.quota_limited);
    let (limited, kept) = artifacts
        .capture_stream((1, 2, 3), ArtifactStream::Stderr, b"pw=hunter2!", false, &secrets, (0, 10), 5)
        .unwrap()
        .unwrap();
    assert_eq!(kept, b"pw=[RE");
    assert!(limited.quota_limited);
    assert!(artifacts
        .capture_stream((1, 2, 3), ArtifactStream::Stdout, b"", false, &secrets, (0, 0), 5)
        .unwrap()
        .is_none());
    assert!(artifacts
        .capture_stream((1, 2, 3), ArtifactStream::Stdout, b"data", false, &secrets, (0, 16), 5)
        .unwrap()
        .is_none());
}

#[test]
fn standard_policy_uses_default_segments_and_retention() {
    let standard = ArtifactPolicy::standard(1 << 20, 1 << 30);
    assert_eq!(standard.segment_bytes, 262_144);
    assert_eq!(standard.retention.as_secs(), 604_800);
    assert!(standard.validate().is_ok());
}

#[test]
fn stored_totals_and_segment_files_are_checked() {
    assert_eq!(stored_usage_bytes(12), Ok(12));
    assert_eq!(stored_usage_bytes(-1), Err(PersistenceError::ArtifactMetadataCorrupt));
    assert!(segment_file_matches(false, true, 4, 4));
    assert!(!segment_file_matches(true, true, 4, 4));
    assert!(!segment_file_matches(false, true, 5, 4));
}

#[test]
fn reservations_under_a_given_id_are_exact() {
    let artifacts = LocalArtifactStore::new(store(), "/a", policy(4, 8, 16)).unwrap();
    let reservation = ArtifactReservation {
        run_id: 1,
        changeset_id: 2,
        supervision_id: 3,
        stream: ArtifactStream::Stdout,
        source_bytes: 10,
        content: b"0123456789",
        process_truncated: false,
        quota_limited: false,
        now_unix_ms: 1_000,
    };
    let artifact = artifacts.reserve_with_id(&reservation, 0, 2, 77).unwrap().unwrap();
    assert_eq!(artifact.id, 77);
    assert_eq!(artifact.stored_bytes, 6);
    assert_eq!(artifact.sha256, digest(b"012345"));
    assert!(artifacts.reserve_with_id(&reservation, 16, 0, 77).unwrap().is_none());
    let (captured, bytes) = artifacts
        .capture_stream_with_id((1, 2, 3), ArtifactStream::Stderr, b"abc", false, &[], (0, 0), 9, 78)
        .unwrap()
        .unwrap();
    assert_eq!((captured.id, captured.stream, bytes), (78, ArtifactStream::Stderr, b"abc".to_vec()));
}

#[test]
fn a_process_result_is_captured_stdout_first_within_the_quotas() {
    let artifacts = LocalArtifactStore::new(store(), "/a", policy(4, 16, 20)).unwrap();
    let secrets = vec![b"hunter2".to_vec()];
    let captured = artifacts
        .capture_process_result_with_ids((1, 2, 3), b"pw=hunter2", false, b"0123456789", false, &secrets, (4, 0), 5, (10, 11))
        .unwrap();
    assert_eq!(captured.len(), 2);
    assert_eq!((captured[0].0.id, captured[0].0.stream), (10, ArtifactStream::Stdout));
    assert_eq!(captured[0].1, b"pw=[REDACTED]");
    assert_eq!((captured[1].0.id, captured[1].0.stream), (11, ArtifactStream::Stderr));
    assert_eq!(captured[1].1, b"012");
    assert!(captured[1].0.quota_limited);
    assert_eq!(4 + captured[0].0.stored_bytes + captured[1].0.stored_bytes, 20);
    let only_stderr = artifacts
        .capture_process_result_with_ids((1, 2, 3), b"", false, b"err", false, &[], (0, 0), 5, (10, 11))
        .unwrap();
    assert_eq!(only_stderr.len(), 1);
    assert_eq!(only_stderr[0].0.id, 11);
    let drawn = artifacts.capture_process_result((1, 2, 3), b"out", false, b"err", false, &[], (0, 0), 5).unwrap();
    assert_eq!(drawn.len(), 2);
    assert_ne!(drawn[0].0.id, drawn[1].0.id);
}
