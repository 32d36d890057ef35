//! Exercises of the policies around the engine: retry classification,
//! backoff, the reconnect state machine, session re-authentication,
//! membership rules, identifier derivations and the handoff digest.

use tasksync::client::{
    Backoff, SyncAction, SyncEvent, SyncLoopState, SyncPhase, WS_BACKOFF_BASE_DELAY_MS,
    WS_BACKOFF_MAX_DELAY_MS,
};
use tasksync::crypto::{
    new_handoff_secret, plan_handoff_completion, verifier_matches_challenge, HandoffCompleteError,
};
use tasksync::identity::{
    derive_username, ensure_email, personal_org_id, personal_org_slug, resolve_primary_email,
    AuthorizationStatus, ProviderUser, UserEmailAddress,
};
use tasksync::model::ensure_text_size;
use tasksync::orgs::{
    invitation_expiry, plan_accept_invitation, plan_remove_member, plan_update_member_role,
    AcceptInvitationError, InvitationStatus, MemberActionError, MemberRecord, MemberRole,
    RoleChange, INVITATION_TTL_MS,
};
use tasksync::proxy::{get_proxy_port, set_proxy_port};
use tasksync::remote_api::{
    classify_poll_response, map_error_code, next_retry_delay, retry_delay_ms,
    DeviceFlowErrorCode, DevicePollResponse, DevicePollResult, RemoteClientError,
};
use tasksync::session::{AuthRefreshError, AuthVerifyError, ClerkIdentity, WsAuthState};

#[test]
fn should_retry() {
    assert!(RemoteClientError::Transport("reset".to_string()).should_retry());
    assert!(RemoteClientError::Timeout.should_retry());
    assert!(RemoteClientError::Http {
        status: 503,
        body: String::new()
    }
    .should_retry());
    assert!(!RemoteClientError::Http {
        status: 404,
        body: String::new()
    }
    .should_retry());
    assert!(!RemoteClientError::Auth.should_retry());
    assert!(!RemoteClientError::Serde("bad json".to_string()).should_retry());
    assert!(!RemoteClientError::Api(DeviceFlowErrorCode::AccessDenied).should_retry());
}

#[test]
fn map_error_code_cases() {
    assert!(matches!(
        map_error_code(Some("unsupported_provider")),
        DeviceFlowErrorCode::UnsupportedProvider
    ));
    assert!(matches!(
        map_error_code(Some("expired")),
        DeviceFlowErrorCode::Expired
    ));
    assert!(matches!(
        map_error_code(Some("expired_token")),
        DeviceFlowErrorCode::Expired
    ));
    assert!(matches!(
        map_error_code(Some("access_denied")),
        DeviceFlowErrorCode::AccessDenied
    ));
    assert!(matches!(
        map_error_code(None),
        DeviceFlowErrorCode::InternalError
    ));
    match map_error_code(Some("weird")) {
        DeviceFlowErrorCode::Other(s) => assert_eq!(s, "weird"),
        other => panic!("expected a passthrough code, got {:?}", other),
    }
}

#[test]
fn poll_classification() {
    let pending = DevicePollResponse {
        status: "pending".to_string(),
        access_token: None,
        error: None,
    };
    assert!(matches!(
        classify_poll_response(pending),
        DevicePollResult::Pending
    ));

    let success = DevicePollResponse {
        status: "success".to_string(),
        access_token: Some("tok".to_string()),
        error: None,
    };
    match classify_poll_response(success) {
        DevicePollResult::Success { access_token } => assert_eq!(access_token, "tok"),
        other => panic!("expected success, got {:?}", other),
    }

    let hollow = DevicePollResponse {
        status: "success".to_string(),
        access_token: None,
        error: None,
    };
    assert!(matches!(
        classify_poll_response(hollow),
        DevicePollResult::Error {
            code: DeviceFlowErrorCode::InternalError
        }
    ));

    let failed = DevicePollResponse {
        status: "error".to_string(),
        access_token: None,
        error: Some("access_denied".to_string()),
    };
    assert!(matches!(
        classify_poll_response(failed),
        DevicePollResult::Error {
            code: DeviceFlowErrorCode::AccessDenied
        }
    ));
}

#[test]
fn retry_delays_stay_bounded() {
    for attempt in 0..8 {
        for jitter in [0u64, 17, 999, 123456789] {
            let d = retry_delay_ms(attempt, jitter);
            assert!(d >= 1000);
            assert!(d < 60000);
        }
    }
    assert_eq!(retry_delay_ms(0, 0), 1000);
    assert_eq!(retry_delay_ms(3, 0), 8000);
    assert_eq!(retry_delay_ms(7, 0), 30000);
    for _ in 0..16 {
        let d = next_retry_delay(1);
        assert!((2000..4000).contains(&d));
    }
}

#[test]
fn backoff_doubles_and_caps() {
    let mut b = Backoff::new();
    assert_eq!(b.next_wait(), 1000);
    assert_eq!(b.next_wait(), 2000);
    assert_eq!(b.next_wait(), 4000);
    assert_eq!(b.next_wait(), 8000);
    assert_eq!(b.next_wait(), 16000);
    assert_eq!(b.next_wait(), 30000);
    assert_eq!(b.next_wait(), 30000);
    b.reset();
    assert_eq!(b.current_ms, WS_BACKOFF_BASE_DELAY_MS);
    assert!(WS_BACKOFF_MAX_DELAY_MS == 30000);
}

#[test]
fn reconnect_loop_transitions() {
    let mut s = SyncLoopState::start(Some(42));
    assert_eq!(s.phase, SyncPhase::WaitingForSession);
    assert_eq!(
        s.step(SyncEvent::SessionActive),
        SyncAction::RunCatchUp { cursor: Some(42) }
    );
    assert_eq!(
        s.step(SyncEvent::CaughtUp { cursor: Some(50) }),
        SyncAction::OpenStream { cursor: Some(50) }
    );
    assert_eq!(s.step(SyncEvent::StreamOpened), SyncAction::AwaitStream);
    assert_eq!(s.backoff.current_ms, WS_BACKOFF_BASE_DELAY_MS);
    assert_eq!(
        s.step(SyncEvent::StreamClosed),
        SyncAction::Sleep { delay_ms: 1000 }
    );
    assert_eq!(s.step(SyncEvent::SessionActive), SyncAction::AwaitSession);
    assert_eq!(
        s.step(SyncEvent::SessionActive),
        SyncAction::RunCatchUp { cursor: Some(50) }
    );
    // a stream that took too long to open restarts from catch-up
    assert_eq!(
        s.step(SyncEvent::CaughtUp { cursor: Some(60) }),
        SyncAction::OpenStream { cursor: Some(60) }
    );
    assert_eq!(
        s.step(SyncEvent::StreamOpenTimedOut),
        SyncAction::RunCatchUp { cursor: Some(60) }
    );
    // shutdown exits promptly from any wait point
    assert_eq!(s.step(SyncEvent::ShutdownRequested), SyncAction::Exit);
    assert_eq!(s.phase, SyncPhase::Stopped);
    assert_eq!(s.step(SyncEvent::SessionActive), SyncAction::Exit);
}

fn identity(user: u128, org: &str, expires_at: i64) -> ClerkIdentity {
    ClerkIdentity {
        user_id: user,
        org_id: Some(org.to_string()),
        session_id: 9,
        expires_at,
    }
}

#[test]
fn session_reauth_rules() {
    let mut auth = WsAuthState::new(1, "org-acme".to_string(), identity(1, "org-acme", 100), 10);

    // still valid within expiry plus grace
    assert!(auth.verify(None, 105).is_ok());
    // expired past the grace window
    assert_eq!(auth.verify(None, 111), Err(AuthVerifyError::Expired));

    // a refreshed token for another user closes the session
    assert_eq!(
        auth.verify(Some(Some(identity(2, "org-acme", 500))), 50),
        Err(AuthVerifyError::Refresh(AuthRefreshError::UserMismatch))
    );
    // one for another organization too
    assert_eq!(
        auth.verify(Some(Some(identity(1, "org-other", 500))), 50),
        Err(AuthVerifyError::Refresh(AuthRefreshError::OrgMismatch))
    );
    // one the identity service rejected
    assert_eq!(
        auth.verify(Some(None), 50),
        Err(AuthVerifyError::Refresh(AuthRefreshError::Verify))
    );
    // a good refresh extends the session
    assert!(auth.verify(Some(Some(identity(1, "org-acme", 500))), 200).is_ok());
    assert_eq!(auth.latest_identity.expires_at, 500);

    auth.store_token("tok".to_string());
    assert_eq!(auth.take_pending_token(), Some("tok".to_string()));
    assert_eq!(auth.take_pending_token(), None);
}

#[test]
fn membership_rules() {
    let admin = Some(MemberRecord {
        role: MemberRole::Admin,
        active: true,
    });
    let member = Some(MemberRecord {
        role: MemberRole::Member,
        active: true,
    });
    let admins = vec![10u128];

    assert_eq!(
        plan_remove_member(false, 10, 11, admin, member, &admins),
        Err(MemberActionError::OrganizationMismatch)
    );
    assert_eq!(
        plan_remove_member(true, 10, 10, admin, admin, &admins),
        Err(MemberActionError::SelfAction)
    );
    assert_eq!(
        plan_remove_member(true, 11, 12, member, member, &admins),
        Err(MemberActionError::AdminRequired)
    );
    assert_eq!(
        plan_remove_member(true, 10, 12, admin, None, &admins),
        Err(MemberActionError::MemberNotFound)
    );
    // the last admin cannot be removed
    assert_eq!(
        plan_remove_member(true, 11, 10, admin, admin, &admins),
        Err(MemberActionError::LastAdmin)
    );
    assert_eq!(plan_remove_member(true, 10, 11, admin, member, &admins), Ok(()));

    // the last admin cannot be demoted either
    assert_eq!(
        plan_update_member_role(true, 11, 10, MemberRole::Member, admin, admin, &admins),
        Err(MemberActionError::LastAdmin)
    );
    assert_eq!(
        plan_update_member_role(true, 10, 11, MemberRole::Member, admin, member, &admins),
        Ok(RoleChange::Unchanged)
    );
    assert_eq!(
        plan_update_member_role(true, 10, 11, MemberRole::Admin, admin, member, &admins),
        Ok(RoleChange::Apply)
    );
    assert_eq!(
        plan_update_member_role(true, 10, 10, MemberRole::Member, admin, admin, &admins),
        Err(MemberActionError::SelfAction)
    );

    assert_eq!(invitation_expiry(1000), 1000 + INVITATION_TTL_MS);
    assert_eq!(INVITATION_TTL_MS, 7 * 24 * 60 * 60 * 1000);
}

#[test]
fn invitation_acceptance_rules() {
    assert_eq!(
        plan_accept_invitation(None, 100),
        Err(AcceptInvitationError::NotFoundOrUsed)
    );
    assert_eq!(
        plan_accept_invitation(Some((InvitationStatus::Accepted, 500, MemberRole::Member)), 100),
        Err(AcceptInvitationError::NotFoundOrUsed)
    );
    assert_eq!(
        plan_accept_invitation(Some((InvitationStatus::Pending, 50, MemberRole::Member)), 100),
        Err(AcceptInvitationError::Expired)
    );
    assert_eq!(
        plan_accept_invitation(Some((InvitationStatus::Pending, 500, MemberRole::Admin)), 100),
        Ok(MemberRole::Admin)
    );
    assert_eq!(tasksync::remote_api::RETRY_MAX_TIMES, 3);
}

#[test]
fn identity_derivations() {
    let addresses = vec![
        UserEmailAddress {
            id: "ea_1".to_string(),
            email_address: "first@example.com".to_string(),
        },
        UserEmailAddress {
            id: "ea_2".to_string(),
            email_address: "second@example.com".to_string(),
        },
    ];
    assert_eq!(
        resolve_primary_email(&Some("ea_2".to_string()), &addresses),
        Some("second@example.com".to_string())
    );
    assert_eq!(
        resolve_primary_email(&Some("ea_9".to_string()), &addresses),
        Some("first@example.com".to_string())
    );
    assert_eq!(resolve_primary_email(&None, &addresses), Some("first@example.com".to_string()));
    assert_eq!(resolve_primary_email(&None, &vec![]), None);

    let profile = ProviderUser {
        id: "4242".to_string(),
        login: None,
        email: None,
        name: Some("Ada L".to_string()),
        avatar_url: None,
    };
    assert_eq!(
        ensure_email("github", &profile),
        "4242@users.noreply.github.com"
    );
    assert_eq!(
        ensure_email("gitlab", &profile),
        "4242@oauth.local"
    );
    let with_email = ProviderUser {
        email: Some("ada@lovelace.org".to_string()),
        ..profile
    };
    assert_eq!(ensure_email("github", &with_email), "ada@lovelace.org");
    assert_eq!(
        derive_username("github", &with_email),
        Some("ada".to_string())
    );
    let bare = ProviderUser {
        id: "4242".to_string(),
        login: None,
        email: None,
        name: None,
        avatar_url: None,
    };
    assert_eq!(
        derive_username("github", &bare),
        Some("github-4242".to_string())
    );

    assert_eq!(personal_org_id("user_9"), "org-user_9");
    assert_eq!(personal_org_slug("User_9", None), "user-9");
    assert_eq!(personal_org_slug("user_9", Some("My Org!")), "my-org-");
    assert_eq!(personal_org_slug("user_9", Some("")), "user-9");

    assert_eq!(AuthorizationStatus::Pending.as_str(), "pending");
    assert_eq!(
        AuthorizationStatus::parse("expired"),
        Ok(AuthorizationStatus::Expired)
    );
    assert_eq!(AuthorizationStatus::parse("nonsense"), Err(()));
}

#[test]
fn handoff_completion_rules() {
    assert_eq!(
        plan_handoff_completion(Some("denied".to_string()), None, None),
        Err(HandoffCompleteError::ProviderError)
    );
    assert_eq!(
        plan_handoff_completion(None, None, Some("v".to_string())),
        Err(HandoffCompleteError::MissingAppCode)
    );
    assert_eq!(
        plan_handoff_completion(None, Some("code".to_string()), None),
        Err(HandoffCompleteError::UnknownHandoff)
    );
    assert_eq!(
        plan_handoff_completion(None, Some("code".to_string()), Some("v".to_string())),
        Ok(("code".to_string(), "v".to_string()))
    );
}

#[test]
fn handoff_digest_round_trip() {
    let secret = new_handoff_secret();
    assert_eq!(secret.verifier.len(), 64);
    assert_eq!(secret.challenge.len(), 64);
    assert_ne!(secret.verifier, secret.challenge);
    assert!(verifier_matches_challenge(&secret.verifier, &secret.challenge));
    assert!(!verifier_matches_challenge("wrong", &secret.challenge));
    // a known digest: the challenge derived from "abc"
    assert!(verifier_matches_challenge(
        "abc",
        "ba7816bf8f01cfea414140de5dae2223b00361a396177a9cb410ff61f20015ad"
    ));
}

#[test]
fn text_size_bounds() {
    assert!(ensure_text_size("short", None));
    assert!(ensure_text_size("short", Some("fine")));
    let long_title = "x".repeat(1025);
    assert!(!ensure_text_size(&long_title, None));
    let edge_title = "x".repeat(1024);
    assert!(ensure_text_size(&edge_title, None));
    let long_desc = "y".repeat(65537);
    assert!(!ensure_text_size("t", Some(&long_desc)));
}

#[test]
fn proxy_port_is_set_once() {
    let mut slot: Option<u16> = None;
    assert_eq!(get_proxy_port(&slot), None);
    assert_eq!(set_proxy_port(&mut slot, 4111), Some(4111));
    assert_eq!(get_proxy_port(&slot), Some(4111));
    assert_eq!(set_proxy_port(&mut slot, 5222), None);
    assert_eq!(get_proxy_port(&slot), Some(4111));
}
