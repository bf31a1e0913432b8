use jet_black::auth::AuthError;
use jet_black::protocol::{CommandResult, StructuredError};
use jet_black::server::{
    acknowledge, after_replay, auth_error_response, control_plane_response, event_stream_start,
    index_path, is_terminal_run_state, local_command_response, next_stream_step,
    page_reaches_terminal, parse_public_origin, parse_u64, product_command_response,
    product_credentials, session_cookie_at, signal_needs_replay, snapshot_items,
    snapshot_truncated, standalone_origin, structured_control_plane_error,
    structured_orchestration_error, subscribed_cursor, validate_host, validate_origin,
    validate_product_host, validate_product_origin, worker_bearer_token, ApiError,
    ControlPlaneError, OrchestrationError, ProductServerError, ServerError, StaticAssets,
    StreamStep, SNAPSHOT_LIMIT,
};
use jet_black::server::{
    command_admission, signal_workspace, CreatedRecord, WorkspaceSource, execution_unavailable, replay_outcome, socket_step, subscription_decision, ClientMessage,
    SocketAction, SocketInput,
};
use jet_black::store::RunState;

#[test]
fn requests_must_name_the_local_listener() {
    assert_eq!(validate_host(Some("127.0.0.1:8080"), "127.0.0.1:8080"), Ok(()));
    let missing = validate_host(None, "127.0.0.1:8080").unwrap_err();
    assert_eq!(missing.status, 403);
    assert_eq!(missing.error.code, "missing_host");
    assert_eq!(missing.error.message, "Host header is required");
    let wrong = validate_host(Some("evil.example"), "127.0.0.1:8080").unwrap_err();
    assert_eq!(wrong.error.code, "invalid_host");
    let origin = validate_origin(Some("http://evil"), "http://127.0.0.1:8080").unwrap_err();
    assert_eq!(origin.error.message, "Origin header does not match the local listener");
}

#[test]
fn product_requests_must_come_from_the_public_origin() {
    assert_eq!(validate_product_origin(Some("https://app.example"), "https://app.example"), Ok(()));
    let wrong = validate_product_origin(Some("https://evil.example"), "https://app.example").unwrap_err();
    assert_eq!(wrong.error.code, "invalid_origin");
    assert_eq!(wrong.error.message, "Origin is not allowed");
    let host = validate_product_host(None, "app.example").unwrap_err();
    assert_eq!(host.error.message, "Host is required");
}

#[test]
fn authentication_failures_are_unauthorized_unless_internal() {
    let invalid = auth_error_response(AuthError::InvalidSession);
    assert_eq!(invalid.status, 401);
    assert_eq!(invalid.error.code, "local_authentication_failed");
    assert_eq!(invalid.error.message, "the local session is invalid or expired");
    assert_eq!(auth_error_response(AuthError::RandomnessUnavailable).status, 500);
}

#[test]
fn orchestration_errors_have_stable_codes() {
    let lease = structured_orchestration_error(OrchestrationError::MutationLeaseUnavailable);
    assert_eq!(lease.code, "mutation_lease_unavailable");
    assert!(lease.retryable);
    let stale = structured_orchestration_error(OrchestrationError::StaleBase);
    assert_eq!(stale.message, "repository base changed");
    assert!(!stale.retryable);
    assert_eq!(structured_orchestration_error(OrchestrationError::Other).code, "runtime_error");
}

#[test]
fn control_plane_errors_map_to_status_and_codes() {
    let conflict = control_plane_response(ControlPlaneError::VersionConflict);
    assert_eq!(conflict.status, 409);
    assert_eq!(conflict.error.code, "version_conflict");
    assert!(conflict.error.retryable);
    assert_eq!(control_plane_response(ControlPlaneError::QuotaExceeded).status, 413);
    assert_eq!(control_plane_response(ControlPlaneError::InvalidLaunchToken).status, 401);
    assert_eq!(control_plane_response(ControlPlaneError::Other).status, 500);
    assert_eq!(structured_control_plane_error(&ControlPlaneError::Database).code, "database_unavailable");
}

#[test]
fn command_responses_carry_the_request_id() {
    let ok = product_command_response::<u32>(7, Ok(5));
    assert_eq!(ok.version, "0.9");
    assert_eq!(ok.request_id, 7);
    assert_eq!(ok.result, CommandResult::Success(5));
    let failed = product_command_response::<u32>(7, Err(ControlPlaneError::Forbidden));
    match failed.result {
        CommandResult::Error(e) => assert_eq!(e.code, "forbidden"),
        CommandResult::Success(_) => panic!("expected an error"),
    }
    let error = StructuredError { code: "x".to_owned(), message: "y".to_owned(), retryable: false };
    assert_eq!(local_command_response::<u32>(3, Err(error.clone())).result, CommandResult::Error(error));
}

#[test]
fn public_origin_yields_origin_and_authority() {
    assert_eq!(
        parse_public_origin("https://app.example.com/"),
        Ok(("https://app.example.com".to_owned(), "app.example.com".to_owned()))
    );
    assert_eq!(
        parse_public_origin("http://127.0.0.1:9000"),
        Ok(("http://127.0.0.1:9000".to_owned(), "127.0.0.1:9000".to_owned()))
    );
    assert_eq!(
        parse_public_origin("https://app.example.com/path"),
        Err(ProductServerError::InvalidOrigin("https://app.example.com/path".to_owned()))
    );
    assert_eq!(parse_public_origin("app.example.com"), Err(ProductServerError::InvalidOrigin("app.example.com".to_owned())));
    assert_eq!(parse_public_origin("https://"), Err(ProductServerError::InvalidOrigin("https://".to_owned())));
}

#[test]
fn standalone_servers_listen_on_loopback_only() {
    assert_eq!(standalone_origin("127.0.0.1:8080", true), Ok("http://127.0.0.1:8080".to_owned()));
    assert_eq!(
        standalone_origin("10.0.0.1:8080", false),
        Err(ServerError::NonLoopbackAddress("10.0.0.1:8080".to_owned()))
    );
}

#[test]
fn product_credentials_need_session_and_csrf_for_mutations() {
    assert_eq!(product_credentials(Some("jet_black_session=t"), None, false), Ok(("t", None)));
    assert_eq!(product_credentials(Some("jet_black_session=t"), Some("c"), true), Ok(("t", Some("c"))));
    let missing_csrf = product_credentials(Some("jet_black_session=t"), None, true).unwrap_err();
    assert_eq!(missing_csrf.status, 401);
    assert_eq!(missing_csrf.error.code, "missing_csrf");
    let missing_session = product_credentials(Some("other=1"), Some("c"), true).unwrap_err();
    assert_eq!(missing_session.error.message, "Session is required");
}

#[test]
fn workers_present_a_bearer_credential() {
    assert_eq!(worker_bearer_token(Some("Bearer abc")), Ok("abc"));
    let expected = ApiError::unauthorized("missing_worker_credential", "Worker bearer credential is required");
    assert_eq!(worker_bearer_token(Some("Bearer ")), Err(expected.clone()));
    assert_eq!(worker_bearer_token(Some("Basic abc")), Err(expected.clone()));
    assert_eq!(worker_bearer_token(None), Err(expected));
}

#[test]
fn product_cookie_lives_until_the_session_expires() {
    assert_eq!(
        session_cookie_at("tok", 61_500, false, 1_000),
        "jet_black_session=tok; HttpOnly; SameSite=Strict; Path=/; Max-Age=60"
    );
    assert_eq!(
        session_cookie_at("tok", 1_000, true, 2_500),
        "jet_black_session=tok; HttpOnly; SameSite=Strict; Path=/; Max-Age=-1; Secure"
    );
}

#[test]
fn unsigned_numbers_parse_like_from_str() {
    assert_eq!(parse_u64("42"), Some(42));
    assert_eq!(parse_u64("+7"), Some(7));
    assert_eq!(parse_u64("18446744073709551615"), Some(u64::MAX));
    assert_eq!(parse_u64("18446744073709551616"), None);
    assert_eq!(parse_u64(""), None);
    assert_eq!(parse_u64("+"), None);
    assert_eq!(parse_u64("-1"), None);
    assert_eq!(parse_u64(" 1"), None);
}

#[test]
fn event_streams_resume_after_the_later_cursor() {
    assert_eq!(event_stream_start(Some(5), Some("9")), 9);
    assert_eq!(event_stream_start(Some(12), Some("9")), 12);
    assert_eq!(event_stream_start(None, Some("garbage")), 0);
    assert_eq!(event_stream_start(None, None), 0);
}

#[test]
fn event_streams_stop_at_a_terminal_state() {
    assert!(is_terminal_run_state(RunState::Interrupted));
    assert!(!is_terminal_run_state(RunState::AwaitingApproval));
    assert!(page_reaches_terminal(&[None, Some(RunState::Running), Some(RunState::Completed)]));
    assert!(!page_reaches_terminal(&[None, Some(RunState::Running)]));
    assert_eq!(next_stream_step(true, false, 3), StreamStep::Stop);
    assert_eq!(next_stream_step(false, true, 0), StreamStep::Stop);
    assert_eq!(next_stream_step(false, false, 100), StreamStep::FetchNow);
    assert_eq!(next_stream_step(false, true, 5), StreamStep::Wait);
}

#[test]
fn subscriptions_replay_only_new_events_of_their_workspace() {
    let subscription = Some((1u128, 10u64));
    assert!(signal_needs_replay(subscription, 1, 11));
    assert!(!signal_needs_replay(subscription, 1, 10));
    assert!(!signal_needs_replay(subscription, 2, 11));
    assert!(!signal_needs_replay(None, 1, 11));
    assert_eq!(after_replay(subscription, 15), Some((1, 15)));
    assert_eq!(subscribed_cursor(Some((1, 15)), 3), 15);
    assert_eq!(subscribed_cursor(None, 3), 3);
}

#[test]
fn acknowledgements_cannot_run_ahead_of_sent_events() {
    assert_eq!(acknowledge(Some((1, 10)), 8), Ok(Some((1, 10))));
    assert_eq!(acknowledge(None, 8), Ok(None));
    let error = acknowledge(Some((1, 10)), 11).unwrap_err();
    assert_eq!(error.code, "invalid_acknowledgement");
    assert_eq!(error.message, "Acknowledgement exceeds the last sent cursor");
}

#[test]
fn snapshots_are_truncated_at_the_limit() {
    assert!(!snapshot_truncated(&[0, SNAPSHOT_LIMIT, 3]));
    assert!(snapshot_truncated(&[0, SNAPSHOT_LIMIT + 1]));
    let items: Vec<usize> = (0..SNAPSHOT_LIMIT + 1).collect();
    let kept = snapshot_items(items);
    assert_eq!(kept.len(), SNAPSHOT_LIMIT);
    assert_eq!(kept[SNAPSHOT_LIMIT - 1], SNAPSHOT_LIMIT - 1);
}

#[test]
fn static_assets_need_an_index_page() {
    assert_eq!(index_path("/srv/www"), "/srv/www/index.html");
    assert_eq!(index_path("/"), "/index.html");
    let assets = StaticAssets::open("www", Ok("/srv/www".to_owned()), true).unwrap();
    assert_eq!(assets.directory(), "/srv/www");
    assert_eq!(
        StaticAssets::open("www", Ok("/srv/www".to_owned()), false).err(),
        Some(ServerError::MissingStaticIndex("/srv/www/index.html".to_owned()))
    );
    assert_eq!(
        StaticAssets::open("www", Err("not found".to_owned()), true).err(),
        Some(ServerError::StaticAssets { path: "www".to_owned(), source: "not found".to_owned() })
    );
}

#[test]
fn websocket_sessions_answer_each_input() {
    let sub = Some((1u128, 10u64));
    let (same, action) = socket_step(sub, SocketInput::Text(None));
    assert_eq!(same, sub);
    match action {
        SocketAction::SendError(e) => assert_eq!(e.code, "invalid_message"),
        other => panic!("unexpected {other:?}"),
    }
    assert_eq!(socket_step(sub, SocketInput::PingFrame), (sub, SocketAction::PongFrame));
    assert_eq!(socket_step(sub, SocketInput::Text(Some(ClientMessage::Ping))), (sub, SocketAction::SendPong));
    assert_eq!(socket_step(sub, SocketInput::CloseFrame), (sub, SocketAction::Stop));
    assert_eq!(socket_step(sub, SocketInput::IgnoredFrame), (sub, SocketAction::Continue));
    assert_eq!(socket_step(sub, SocketInput::Signal { workspace_id: 1, cursor: 12 }), (sub, SocketAction::Replay));
    assert_eq!(socket_step(sub, SocketInput::Signal { workspace_id: 2, cursor: 12 }), (sub, SocketAction::Continue));
    assert_eq!(socket_step(sub, SocketInput::Lagged), (sub, SocketAction::Replay));
    assert_eq!(
        socket_step(None, SocketInput::Text(Some(ClientMessage::Subscribe { workspace_id: 3, after_cursor: 4 }))),
        (None, SocketAction::CheckSubscription { workspace_id: 3, after_cursor: 4 })
    );
    assert_eq!(socket_step(sub, SocketInput::Text(Some(ClientMessage::Acknowledge { cursor: 9 }))), (sub, SocketAction::Continue));
    let (_, rejected) = socket_step(sub, SocketInput::Text(Some(ClientMessage::Acknowledge { cursor: 11 })));
    assert!(matches!(rejected, SocketAction::SendError(ref e) if e.code == "invalid_acknowledgement"));
    assert_eq!(subscription_decision(None, 3, 4, true), (Some((3, 4)), SocketAction::Replay));
    let (kept, refused) = subscription_decision(sub, 3, 4, false);
    assert_eq!(kept, sub);
    assert!(matches!(refused, SocketAction::SendError(ref e) if e.message == "Workspace subscription is forbidden"));
    assert_eq!(replay_outcome(Some((3, 4)), Some(9)), (Some((3, 9)), SocketAction::Continue));
    let (unchanged, failed) = replay_outcome(Some((3, 4)), None);
    assert_eq!(unchanged, Some((3, 4)));
    assert!(matches!(failed, SocketAction::SendError(ref e) if e.code == "replay_failed"));
    assert_eq!(execution_unavailable().status, 503);
}

#[test]
fn command_results_signal_their_workspace() {
    assert_eq!(signal_workspace(CreatedRecord::Workspace { id: 4 }), WorkspaceSource::Known(4));
    assert_eq!(signal_workspace(CreatedRecord::Project { workspace_id: 5 }), WorkspaceSource::Known(5));
    assert_eq!(signal_workspace(CreatedRecord::InProject { project_id: 6 }), WorkspaceSource::OfProject(6));
    let review = command_admission(false, true);
    assert!(!review.run_admission && review.review_slot);
    assert!(command_admission(true, false).run_admission);
}

#[test]
fn requests_in_another_version_are_answered_with_an_error() {
    let current = jet_black::protocol::Envelope::with_request_id(7, ());
    assert!(jet_black::server::version_rejection::<(), u8>(&current).is_none());
    let old = jet_black::protocol::Envelope { version: "0.8".to_owned(), request_id: 7, payload: () };
    let reply = jet_black::server::version_rejection::<(), u8>(&old).unwrap();
    assert_eq!(reply.request_id, 7);
    assert_eq!(reply.result, CommandResult::Error(StructuredError::unsupported_version("0.8")));
}
