use jet_black::artifacts::{
    validate_artifact_layout, validate_artifact_row, ArtifactRow, ArtifactState, ArtifactStream,
    RunArtifact, ArtifactSegment,
};
use jet_black::digest::digest;
use jet_black::error::PersistenceError;
use jet_black::finalization::{
    check_divergence_request, check_finalization_request, decide_completion, decide_divergence,
    decide_preparation, expected_changeset_ref, is_git_object_id, is_sha256_digest,
    validate_finalization_result, validate_finalization_scope, ChangesetFinalizationResult,
    ChangesetFinalizationState, ChangesetMutationKind, ChangesetMutationScope, ChangesetState,
    ChangesetView, CheckpointView, FinalizationStep, WorktreeView,
};
use jet_black::server::ApiError;
use jet_black::store::WorktreeState;

const BASE: &str = "1111111111111111111111111111111111111111";
const HEAD: &str = "2222222222222222222222222222222222222222";
const NEW_HEAD: &str = "3333333333333333333333333333333333333333";

fn manifest() -> String {
    digest(b"manifest")
}

fn scope(kind: ChangesetMutationKind) -> ChangesetMutationScope {
    ChangesetMutationScope {
        changeset_id: 1,
        repository_id: 2,
        checkpoint_id: 3,
        kind,
        expected_version: 4,
        base_sha: BASE.to_owned(),
        expected_head_sha: HEAD.to_owned(),
        manifest_sha256: manifest(),
    }
}

fn changeset() -> ChangesetView {
    ChangesetView { id: 1, repository_id: 2, state: ChangesetState::Reviewable, base_sha: BASE.to_owned(), head_sha: HEAD.to_owned() }
}

fn worktree() -> WorktreeView {
    WorktreeView { id: 5, changeset_id: 1, state: WorktreeState::Ready, base_sha: BASE.to_owned() }
}

fn checkpoint() -> CheckpointView {
    CheckpointView { base_sha: BASE.to_owned(), head_sha: HEAD.to_owned() }
}

#[test]
fn digests_and_object_ids_are_hexadecimal() {
    assert!(is_sha256_digest(&manifest()));
    assert!(is_sha256_digest(&manifest().to_uppercase()));
    assert!(!is_sha256_digest(BASE));
    assert!(is_git_object_id(BASE));
    assert!(is_git_object_id(&manifest()));
    assert!(!is_git_object_id("xyz"));
}

#[test]
fn finalization_requests_name_their_scope() {
    let s = scope(ChangesetMutationKind::Commit);
    let d = manifest();
    assert_eq!(check_finalization_request(&d, &d, &s), Ok(()));
    assert_eq!(check_finalization_request("abc", "abc", &s), Err(PersistenceError::FinalizationDigestMismatch));
    let mut bad = s.clone();
    bad.base_sha = "not-a-sha".to_owned();
    assert_eq!(validate_finalization_scope(&bad), Err(PersistenceError::InvalidFinalizationInput("mutation scope")));
}

#[test]
fn commit_results_name_the_changeset_ref() {
    let s = scope(ChangesetMutationKind::Commit);
    let good = ChangesetFinalizationResult::Commit { resulting_head_sha: NEW_HEAD.to_owned(), app_ref: expected_changeset_ref(1) };
    assert_eq!(validate_finalization_result(&s, &good), Ok(()));
    let wrong_ref = ChangesetFinalizationResult::Commit { resulting_head_sha: NEW_HEAD.to_owned(), app_ref: "refs/x".to_owned() };
    assert_eq!(validate_finalization_result(&s, &wrong_ref), Err(PersistenceError::InvalidFinalizationInput("commit result")));
    assert_eq!(validate_finalization_result(&s, &ChangesetFinalizationResult::Discard), Err(PersistenceError::FinalizationKindMismatch));
}

#[test]
fn preparation_is_replay_safe() {
    let s = scope(ChangesetMutationKind::Commit);
    let d = manifest();
    let step = decide_preparation(None, &d, &s, 5, 7, 100, &changeset(), 4, &worktree(), 7, &checkpoint()).unwrap();
    let prepared = match step {
        FinalizationStep::Apply(f) => f,
        _ => panic!("expected a new record"),
    };
    assert_eq!(prepared.state, ChangesetFinalizationState::Prepared);
    assert_eq!(prepared.version, 0);
    let again = decide_preparation(Some(prepared.clone()), &d, &s, 5, 7, 200, &changeset(), 4, &worktree(), 7, &checkpoint());
    assert!(matches!(again, Ok(FinalizationStep::Replay)));
    let other = decide_preparation(Some(prepared), &d, &s, 6, 7, 200, &changeset(), 4, &worktree(), 7, &checkpoint());
    assert!(matches!(other, Err(PersistenceError::FinalizationConflict)));
    let stale = decide_preparation(None, &d, &s, 5, 7, 100, &changeset(), 3, &worktree(), 7, &checkpoint());
    assert!(matches!(stale, Err(PersistenceError::VersionConflict { aggregate: "changeset", id: 1, expected: 4, actual: 3 })));
}

#[test]
fn completion_and_divergence_follow_preparation() {
    let s = scope(ChangesetMutationKind::Commit);
    let d = manifest();
    let prepared = match decide_preparation(None, &d, &s, 5, 7, 100, &changeset(), 4, &worktree(), 7, &checkpoint()).unwrap() {
        FinalizationStep::Apply(f) => f,
        _ => panic!("expected a new record"),
    };
    let result = ChangesetFinalizationResult::Commit { resulting_head_sha: NEW_HEAD.to_owned(), app_ref: expected_changeset_ref(1) };
    let (completed, moved) = match decide_completion(prepared.clone(), result.clone(), 150, &changeset(), 4, &worktree(), 7).unwrap() {
        FinalizationStep::Finish(g, m) => (g, m),
        _ => panic!("expected completion"),
    };
    assert_eq!(moved.changeset.state, ChangesetState::Committed);
    assert_eq!(moved.changeset.head_sha, NEW_HEAD);
    assert_eq!(moved.changeset_version, 5);
    assert_eq!(moved.worktree.state, WorktreeState::Removed);
    assert_eq!(moved.worktree_version, 9);
    let replay = decide_completion(completed.clone(), result.clone(), 180, &moved.changeset, moved.changeset_version,
        &moved.worktree, moved.worktree_version);
    assert!(matches!(replay, Ok(FinalizationStep::Replay)));
    assert_eq!(completed.state, ChangesetFinalizationState::Completed);
    assert_eq!(completed.version, 1);
    assert_eq!(completed.updated_at_unix_ms, 150);
    let early = decide_completion(prepared.clone(), result, 50, &changeset(), 4, &worktree(), 7);
    assert!(matches!(early, Err(PersistenceError::InvalidFinalizationInput("timestamp"))));
    let diverged = decide_divergence(prepared, NEW_HEAD, "head moved".to_owned(), 160, &changeset(), 4, &worktree(), 7).unwrap();
    match diverged {
        FinalizationStep::Finish(g, m) => {
            assert_eq!(g.state, ChangesetFinalizationState::Divergent);
            assert_eq!(g.divergence_detail.as_deref(), Some("head moved"));
            assert_eq!(m.changeset.state, ChangesetState::Divergent);
            assert_eq!(m.changeset.head_sha, NEW_HEAD);
            assert_eq!(m.changeset_version, 5);
            assert_eq!(m.worktree.state, WorktreeState::Quarantined);
            assert_eq!(m.worktree_version, 8);
            let replay = decide_divergence(g.clone(), NEW_HEAD, "head moved".to_owned(), 170, &m.changeset,
                m.changeset_version, &m.worktree, m.worktree_version);
            assert!(matches!(replay, Ok(FinalizationStep::Replay)));
        }
        _ => panic!("expected divergence"),
    }
    let refused = decide_divergence(completed, NEW_HEAD, "x".to_owned(), 170, &changeset(), 4, &worktree(), 7);
    assert!(matches!(refused, Err(PersistenceError::FinalizationConflict)));
}

#[test]
fn divergence_reports_are_bounded() {
    assert_eq!(check_divergence_request("moved", HEAD, 16), Ok(()));
    assert_eq!(check_divergence_request("", HEAD, 16), Err(PersistenceError::ResourceLimit("finalization divergence detail")));
    assert_eq!(check_divergence_request("moved", "nope", 16), Err(PersistenceError::InvalidFinalizationInput("observed head sha")));
}

fn complete_artifact() -> RunArtifact {
    RunArtifact {
        id: 1,
        changeset_id: 2,
        run_id: 3,
        supervision_id: 4,
        stream: ArtifactStream::Stdout,
        state: ArtifactState::Complete,
        source_bytes: 6,
        stored_bytes: 6,
        segments: vec![
            ArtifactSegment { sequence: 0, stored_bytes: 4, sha256: digest(b"abcd") },
            ArtifactSegment { sequence: 1, stored_bytes: 2, sha256: digest(b"ef") },
        ],
        sha256: digest(b"abcdef"),
        redacted: true,
        process_truncated: false,
        quota_limited: false,
        created_at_unix_ms: 10,
        updated_at_unix_ms: 11,
        expires_at_unix_ms: 12,
    }
}

#[test]
fn artifact_manifests_must_be_well_formed() {
    assert_eq!(validate_artifact_layout(&complete_artifact(), 100), Ok(()));
    assert_eq!(validate_artifact_layout(&complete_artifact(), 5), Err(PersistenceError::ArtifactMetadataCorrupt));
    let mut gap = complete_artifact();
    gap.segments[1].sequence = 2;
    assert_eq!(validate_artifact_layout(&gap, 100), Err(PersistenceError::ArtifactMetadataCorrupt));
}

#[test]
fn artifact_rows_must_agree_with_their_manifest() {
    let row = ArtifactRow {
        id: "00000000-0000-0000-0000-000000000001".to_owned(),
        changeset_id: "00000000-0000-0000-0000-000000000002".to_owned(),
        run_id: "00000000-0000-0000-0000-000000000003".to_owned(),
        kind: "provider_stdout".to_owned(),
        created_at_unix_ms: 10,
        status: "complete".to_owned(),
        stored_bytes: 6,
        updated_at_unix_ms: 11,
        expires_at_unix_ms: Some(12),
    };
    assert_eq!(validate_artifact_row(&row, complete_artifact()), Ok(complete_artifact()));
    let wrong_status = ArtifactRow { status: "writing".to_owned(), ..row };
    assert_eq!(validate_artifact_row(&wrong_status, complete_artifact()), Err(PersistenceError::ArtifactMetadataCorrupt));
    assert_eq!(ApiError::internal("boom").status, 500);
}
