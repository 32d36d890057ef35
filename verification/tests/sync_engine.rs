//! End-to-end exercises of the synchronization engine: sharing, streaming,
//! catch-up paging, bulk fallback, conflicts and deletion.

use tasksync::catchup::{catch_up_project, CatchUpOutcome, ShareConfig};
use tasksync::model::{
    ActivityEvent, ActivityKind, CreateSharedTaskRequest, DeleteSharedTaskRequest, SharedTask,
    SharedTaskActivityPayload, TaskStatus, UpdateSharedTaskRequest, UserData,
};
use tasksync::publisher::{
    plan_assign_shared_task, plan_share_task, record_remote_task, sync_shared_task, ShareError,
};
use tasksync::replica::{Project, Replica};
use tasksync::routes::{
    assign_task, create_shared_task, delete_shared_task, update_shared_task, RequestContext,
};
use tasksync::broker::{ActivityBroker, BrokerPoll};
use tasksync::session::{
    handle_server_message, AuthRefreshError, AuthVerifyError, ClientMessage, ServerMessage,
    SessionCloseReason, SessionDirective, SessionFlow, SessionInput, SessionPhase,
};
use tasksync::store::{SharedTaskError, SharedTaskStore};

const ALICE: u128 = 0xa11ce;
const BOB: u128 = 0xb0b;
const REMOTE_PROJECT: u128 = 77;
const LOCAL_PROJECT: u128 = 7;

fn org_store() -> SharedTaskStore {
    let mut store = SharedTaskStore::new("org-acme".to_string());
    store.register_user(UserData {
        id: ALICE,
        first_name: Some("Alice".to_string()),
        last_name: None,
        username: Some("alice".to_string()),
    });
    store.register_user(UserData {
        id: BOB,
        first_name: Some("Bob".to_string()),
        last_name: None,
        username: Some("bob".to_string()),
    });
    store
}

fn alice_replica() -> Replica {
    let mut replica = Replica::new(Some(ALICE));
    replica.add_project(Project {
        id: LOCAL_PROJECT,
        remote_project_id: Some(REMOTE_PROJECT),
    });
    replica
}

fn ctx(user: u128) -> RequestContext {
    RequestContext {
        user_id: user,
        organization_id: "org-acme".to_string(),
    }
}

fn share_a_task(store: &mut SharedTaskStore, replica: &mut Replica) -> (u128, u128) {
    let local_id = replica.create_local_task(
        LOCAL_PROJECT,
        "Fix the flaky test".to_string(),
        Some("it fails on Tuesdays".to_string()),
        TaskStatus::Todo,
    );
    let local = replica.find_local_task(local_id).unwrap();
    let project = Project {
        id: LOCAL_PROJECT,
        remote_project_id: Some(REMOTE_PROJECT),
    };
    let req = plan_share_task(&local, &project, "00000000-0000-0000-0000-0000000a11ce").unwrap();
    assert_eq!(req.assignee_user_id, Some(ALICE));
    let resp = create_shared_task(store, &ctx(ALICE), req, 1000).unwrap();
    assert_eq!(resp.task.version, 1);
    let shared_id = resp.task.id;
    sync_shared_task(replica, local_id, &resp);
    (local_id, shared_id)
}

#[test]
fn scenario_share_update_stream() {
    // a local task is shared; the remote store creates it at version 1; the
    // assignee edits the title from another session; the broker emits the
    // event; the original client's stream delivers it; the local title
    // updates, the version becomes 2 and the cursor records the sequence
    let mut store = org_store();
    let mut replica = alice_replica();
    let (local_id, shared_id) = share_a_task(&mut store, &mut replica);

    let patch = UpdateSharedTaskRequest {
        title: Some("Fix the flaky clock test".to_string()),
        description: None,
        status: None,
        version: None,
    };
    let updated = update_shared_task(&mut store, &ctx(ALICE), shared_id, patch, 2000).unwrap();
    assert_eq!(updated.task.version, 2);

    let page = store.fetch_since(REMOTE_PROJECT, Some(1), 100);
    assert_eq!(page.len(), 1);
    let seq_n = page[0].seq;
    let outcome = handle_server_message(&mut replica, &ServerMessage::Activity(page[0].clone()));
    assert!(outcome.is_ok());

    let mirrored = replica.find_shared_task(shared_id).unwrap();
    assert_eq!(mirrored.title, "Fix the flaky clock test");
    assert_eq!(mirrored.version, 2);
    assert_eq!(mirrored.last_event_seq, Some(seq_n));
    assert_eq!(replica.cursor_for(REMOTE_PROJECT), Some(seq_n));
    let local = replica.find_local_task(local_id).unwrap();
    assert_eq!(local.title, "Fix the flaky clock test");
    assert_eq!(local.shared_task_id, Some(shared_id));
}

#[test]
fn scenario_concurrent_patches_one_conflict() {
    // two concurrent edits both echo expected_version = 1: exactly one is
    // accepted and moves the version to 2; the other gets Conflict and the
    // stored version does not change
    let mut store = org_store();
    let mut replica = alice_replica();
    let (_, shared_id) = share_a_task(&mut store, &mut replica);

    let first = UpdateSharedTaskRequest {
        title: Some("first editor".to_string()),
        description: None,
        status: None,
        version: Some(1),
    };
    let second = UpdateSharedTaskRequest {
        title: Some("second editor".to_string()),
        description: None,
        status: None,
        version: Some(1),
    };
    let won = update_shared_task(&mut store, &ctx(ALICE), shared_id, first, 2000).unwrap();
    assert_eq!(won.task.version, 2);
    let lost = update_shared_task(&mut store, &ctx(ALICE), shared_id, second, 2001);
    assert!(matches!(lost, Err(SharedTaskError::Conflict)));
    assert_eq!(store.version_of(shared_id), Some(2));
    let kept = store.find_by_id(shared_id).unwrap();
    assert_eq!(kept.title, "first editor");
}

#[test]
fn conflict_on_stale_delete_and_assign() {
    let mut store = org_store();
    let mut replica = alice_replica();
    let (_, shared_id) = share_a_task(&mut store, &mut replica);

    let stale_delete = delete_shared_task(
        &mut store,
        &ctx(ALICE),
        shared_id,
        Some(DeleteSharedTaskRequest { version: Some(9) }),
        3000,
    );
    assert!(matches!(stale_delete, Err(SharedTaskError::Conflict)));
    assert_eq!(store.version_of(shared_id), Some(1));

    let stale_assign = assign_task(
        &mut store,
        &ctx(ALICE),
        shared_id,
        tasksync::model::AssignSharedTaskRequest {
            new_assignee_user_id: Some(BOB),
            version: Some(5),
        },
        3000,
    );
    assert!(matches!(stale_assign, Err(SharedTaskError::Conflict)));
    assert_eq!(store.version_of(shared_id), Some(1));

    let good_assign = assign_task(
        &mut store,
        &ctx(ALICE),
        shared_id,
        tasksync::model::AssignSharedTaskRequest {
            new_assignee_user_id: Some(BOB),
            version: Some(1),
        },
        3000,
    )
    .unwrap();
    assert_eq!(good_assign.task.version, 2);
    assert_eq!(good_assign.task.assignee_user_id, Some(BOB));
}

#[test]
fn route_guards_forbid_non_assignee() {
    let mut store = org_store();
    let mut replica = alice_replica();
    let (_, shared_id) = share_a_task(&mut store, &mut replica);

    let patch = UpdateSharedTaskRequest {
        title: Some("not yours".to_string()),
        description: None,
        status: None,
        version: None,
    };
    let refused = update_shared_task(&mut store, &ctx(BOB), shared_id, patch, 2000);
    assert!(matches!(refused, Err(SharedTaskError::Forbidden)));
    let gone = update_shared_task(
        &mut store,
        &ctx(ALICE),
        999_999,
        UpdateSharedTaskRequest {
            title: None,
            description: None,
            status: None,
            version: None,
        },
        2000,
    );
    assert!(matches!(gone, Err(SharedTaskError::NotFound)));
}

fn sample_event(seq: i64, kind: ActivityKind, task_id: u128, title: &str) -> ActivityEvent {
    ActivityEvent {
        event_id: 500 + seq as u128,
        organization_id: "org-acme".to_string(),
        project_id: REMOTE_PROJECT,
        seq,
        kind,
        payload: Some(SharedTaskActivityPayload {
            task: SharedTask {
                id: task_id,
                organization_id: "org-acme".to_string(),
                project_id: REMOTE_PROJECT,
                title: title.to_string(),
                description: None,
                status: TaskStatus::InProgress,
                creator_user_id: Some(BOB),
                assignee_user_id: Some(ALICE),
                version: 3,
                created_at: 10,
                updated_at: 20,
            },
            user: Some(UserData {
                id: ALICE,
                first_name: Some("Alice".to_string()),
                last_name: None,
                username: Some("alice".to_string()),
            }),
        }),
        created_at: 30,
    }
}

fn snapshot_of_replica(replica: &Replica, shared_id: u128) -> (Option<String>, Option<i64>, Option<u128>) {
    let title = replica.find_shared_task(shared_id).map(|t| t.title);
    let cursor = replica.cursor_for(REMOTE_PROJECT);
    let link = replica
        .find_local_by_shared_task_id(shared_id)
        .map(|t| t.id);
    (title, cursor, link)
}

#[test]
fn applying_one_event_twice_changes_nothing_more() {
    // idempotence: the second application of the same event is a no-op
    let mut replica = alice_replica();
    let event = sample_event(41, ActivityKind::Upserted, 900, "assigned to alice");

    replica.apply_event(&event);
    let after_once = snapshot_of_replica(&replica, 900);
    // the assignee got a fresh linked local task on first application
    assert!(after_once.2.is_some());

    replica.apply_event(&event);
    let after_twice = snapshot_of_replica(&replica, 900);
    assert_eq!(after_once, after_twice);
    let mirrored = replica.find_shared_task(900).unwrap();
    assert_eq!(mirrored.version, 3);
    assert_eq!(mirrored.last_event_seq, Some(41));
}

#[test]
fn cursor_never_regresses() {
    let mut replica = alice_replica();
    replica.apply_event(&sample_event(10, ActivityKind::Upserted, 900, "t"));
    assert_eq!(replica.cursor_for(REMOTE_PROJECT), Some(10));
    replica.apply_event(&sample_event(25, ActivityKind::Upserted, 900, "t2"));
    assert_eq!(replica.cursor_for(REMOTE_PROJECT), Some(25));
    // an old event replayed out of order neither rewinds the cursor nor
    // regresses the row
    replica.apply_event(&sample_event(10, ActivityKind::Upserted, 900, "stale"));
    assert_eq!(replica.cursor_for(REMOTE_PROJECT), Some(25));
    assert_eq!(replica.find_shared_task(900).unwrap().title, "t2");
}

#[test]
fn delete_event_removes_row_and_link() {
    let mut replica = alice_replica();
    replica.apply_event(&sample_event(10, ActivityKind::Upserted, 900, "t"));
    assert!(replica.find_local_by_shared_task_id(900).is_some());
    replica.apply_event(&sample_event(11, ActivityKind::Deleted, 900, "t"));
    assert!(replica.find_shared_task(900).is_none());
    assert!(replica.find_local_by_shared_task_id(900).is_none());
    assert_eq!(replica.cursor_for(REMOTE_PROJECT), Some(11));
}

#[test]
fn snapshot_omission_removes_row_and_link() {
    let mut store = org_store();
    let mut replica = alice_replica();
    let (_, shared_id) = share_a_task(&mut store, &mut replica);
    assert!(replica.find_shared_task(shared_id).is_some());
    assert!(replica.find_local_by_shared_task_id(shared_id).is_some());

    // the task is deleted remotely; the replica misses the event and runs a
    // bulk snapshot instead
    delete_shared_task(&mut store, &ctx(ALICE), shared_id, None, 4000).unwrap();
    let snap = store.bulk_fetch(REMOTE_PROJECT);
    assert!(snap.deleted_task_ids.contains(&shared_id));
    replica.apply_snapshot(REMOTE_PROJECT, &snap);
    assert!(replica.find_shared_task(shared_id).is_none());
    assert!(replica.find_local_by_shared_task_id(shared_id).is_none());
}

#[test]
fn malformed_event_is_skipped_but_advances_cursor() {
    let mut replica = alice_replica();
    let mut event = sample_event(9, ActivityKind::Upserted, 900, "t");
    event.payload = None;
    replica.apply_event(&event);
    assert!(replica.find_shared_task(900).is_none());
    assert_eq!(replica.cursor_for(REMOTE_PROJECT), Some(9));
}

fn busy_store(mutations: usize) -> (SharedTaskStore, u128) {
    let mut store = org_store();
    let created = create_shared_task(
        &mut store,
        &ctx(ALICE),
        CreateSharedTaskRequest {
            project_id: REMOTE_PROJECT,
            title: "busy".to_string(),
            description: None,
            assignee_user_id: Some(ALICE),
        },
        100,
    )
    .unwrap();
    let id = created.task.id;
    for i in 0..mutations {
        let patch = UpdateSharedTaskRequest {
            title: Some(format!("rev {}", i)),
            description: None,
            status: None,
            version: None,
        };
        update_shared_task(&mut store, &ctx(ALICE), id, patch, 200 + i as i64).unwrap();
    }
    (store, id)
}

#[test]
fn catch_up_pages_through_small_backlog() {
    let (store, id) = busy_store(5);
    let mut replica = alice_replica();
    let config = ShareConfig {
        activity_page_limit: 2,
        bulk_sync_threshold: 100,
    };
    let outcome = catch_up_project(&mut replica, &store, &config, REMOTE_PROJECT, Some(0));
    match outcome {
        CatchUpOutcome::Paged(cursor) => assert_eq!(cursor, Some(6)),
        CatchUpOutcome::Resynced(_) => panic!("small backlog must page"),
    }
    assert_eq!(replica.find_shared_task(id).unwrap().title, "rev 4");
    assert_eq!(replica.cursor_for(REMOTE_PROJECT), Some(6));
}

#[test]
fn scenario_long_offline_gap_falls_back_to_bulk() {
    // the client was offline long enough that the backlog gap exceeds the
    // threshold: one bulk snapshot restores consistency without replaying
    // every intermediate event
    let (store, id) = busy_store(10);
    let mut replica = alice_replica();
    let config = ShareConfig {
        activity_page_limit: 20,
        bulk_sync_threshold: 4,
    };
    let outcome = catch_up_project(&mut replica, &store, &config, REMOTE_PROJECT, Some(0));
    let cursor = match outcome {
        CatchUpOutcome::Resynced(cursor) => cursor,
        CatchUpOutcome::Paged(_) => panic!("a deep gap must resync"),
    };
    assert_eq!(cursor, Some(11));
    // the state equals a pure bulk-snapshot fetch
    let task = replica.find_shared_task(id).unwrap();
    let authoritative = store.find_by_id(id).unwrap();
    assert_eq!(task.title, authoritative.title);
    assert_eq!(task.version, authoritative.version);
    assert_eq!(task.last_event_seq, cursor);
    assert_eq!(replica.cursor_for(REMOTE_PROJECT), cursor);
}

#[test]
fn catch_up_without_cursor_starts_with_bulk() {
    let (store, id) = busy_store(2);
    let mut replica = alice_replica();
    let config = ShareConfig {
        activity_page_limit: 10,
        bulk_sync_threshold: 1000,
    };
    let outcome = catch_up_project(&mut replica, &store, &config, REMOTE_PROJECT, None);
    match outcome {
        CatchUpOutcome::Resynced(cursor) => assert_eq!(cursor, Some(3)),
        CatchUpOutcome::Paged(_) => panic!("no cursor means a full snapshot first"),
    }
    assert!(replica.find_shared_task(id).is_some());
}

#[test]
fn share_planning_rejects_what_cannot_be_sent() {
    let mut replica = alice_replica();
    let local_id = replica.create_local_task(
        LOCAL_PROJECT,
        "unshared".to_string(),
        None,
        TaskStatus::Todo,
    );
    let local = replica.find_local_task(local_id).unwrap();

    let unlinked = Project {
        id: LOCAL_PROJECT,
        remote_project_id: None,
    };
    assert!(matches!(
        plan_share_task(&local, &unlinked, "00000000-0000-0000-0000-0000000a11ce"),
        Err(ShareError::ProjectNotLinked(LOCAL_PROJECT))
    ));

    let linked = Project {
        id: LOCAL_PROJECT,
        remote_project_id: Some(REMOTE_PROJECT),
    };
    assert!(matches!(
        plan_share_task(&local, &linked, "this is not an identifier"),
        Err(ShareError::InvalidUserId)
    ));

    let mut shared_local = local;
    shared_local.shared_task_id = Some(123);
    assert!(matches!(
        plan_share_task(&shared_local, &linked, "00000000-0000-0000-0000-0000000a11ce"),
        Err(ShareError::AlreadyShared(_))
    ));

    // the textual identifier resolves to exactly the value it denotes
    shared_local.shared_task_id = None;
    let req = plan_share_task(
        &shared_local,
        &linked,
        "67e55044-10b1-426f-9247-bb680e5fe0c8",
    )
    .unwrap();
    assert_eq!(
        req.assignee_user_id,
        Some(0x67e5_5044_10b1_426f_9247_bb68_0e5f_e0c8)
    );
}

#[test]
fn broker_fans_out_and_detects_lag() {
    let mut broker = ActivityBroker::new(2);
    let fast = broker.subscribe();
    let slow = broker.subscribe();

    broker.publish(&sample_event(1, ActivityKind::Upserted, 900, "one"));
    match broker.poll_next(fast) {
        BrokerPoll::Delivered(e) => assert_eq!(e.seq, 1),
        other => panic!("fast subscriber expected a delivery, got {:?}", other),
    }
    broker.publish(&sample_event(2, ActivityKind::Upserted, 900, "two"));
    broker.publish(&sample_event(3, ActivityKind::Upserted, 900, "three"));

    // the slow consumer's bounded buffer overflowed: every poll says so —
    // the hole is never papered over, the session must close and catch up
    assert!(matches!(broker.poll_next(slow), BrokerPoll::Lagged));
    assert!(matches!(broker.poll_next(slow), BrokerPoll::Lagged));

    // the fast consumer saw every event, in order
    match broker.poll_next(fast) {
        BrokerPoll::Delivered(e) => assert_eq!(e.seq, 2),
        other => panic!("expected the second event, got {:?}", other),
    }
    match broker.poll_next(fast) {
        BrokerPoll::Delivered(e) => assert_eq!(e.seq, 3),
        other => panic!("expected the third event, got {:?}", other),
    }
    assert!(matches!(broker.poll_next(fast), BrokerPoll::Empty));
}

#[test]
fn session_backfills_before_live_and_closes_on_lag() {
    let mut flow = SessionFlow::attach("org-acme".to_string());
    assert_eq!(flow.phase, SessionPhase::Backfilling);
    // history pages go out until one comes short; only then live pushes count
    assert!(matches!(
        flow.step(SessionInput::BackfillPage { done: false }),
        SessionDirective::ReadBackfill
    ));
    assert!(matches!(
        flow.step(SessionInput::BackfillPage { done: true }),
        SessionDirective::AwaitInput
    ));
    assert_eq!(flow.phase, SessionPhase::Streaming);

    // a live event of this organization is forwarded; a foreign one is not
    let ours = sample_event(7, ActivityKind::Upserted, 900, "live");
    match flow.step(SessionInput::Broker(BrokerPoll::Delivered(ours))) {
        SessionDirective::ForwardActivity(e) => assert_eq!(e.seq, 7),
        other => panic!("expected a forward, got {:?}", other),
    }
    let mut foreign = sample_event(8, ActivityKind::Upserted, 900, "other org");
    foreign.organization_id = "org-else".to_string();
    assert!(matches!(
        flow.step(SessionInput::Broker(BrokerPoll::Delivered(foreign))),
        SessionDirective::AwaitInput
    ));

    // frames: acks are informational, a refreshed token is handed over
    assert!(matches!(
        flow.step(SessionInput::Frame(ClientMessage::Ack { cursor: 7 })),
        SessionDirective::AwaitInput
    ));
    match flow.step(SessionInput::Frame(ClientMessage::AuthToken {
        token: "tok".to_string(),
    })) {
        SessionDirective::StoreToken(t) => assert_eq!(t, "tok"),
        other => panic!("expected the token handed over, got {:?}", other),
    }

    // a known hole in the stream closes the session immediately
    assert!(matches!(
        flow.step(SessionInput::Broker(BrokerPoll::Lagged)),
        SessionDirective::SendErrorAndClose(SessionCloseReason::Lagged)
    ));
    assert_eq!(flow.phase, SessionPhase::Closed);
    assert!(matches!(
        flow.step(SessionInput::Broker(BrokerPoll::Empty)),
        SessionDirective::Close
    ));
}

#[test]
fn session_closes_on_expired_credential() {
    let mut flow = SessionFlow::attach("org-acme".to_string());
    assert!(matches!(
        flow.step(SessionInput::AuthOutcome(Ok(()))),
        SessionDirective::AwaitInput
    ));
    assert!(matches!(
        flow.step(SessionInput::AuthOutcome(Err(AuthVerifyError::Expired))),
        SessionDirective::SendErrorAndClose(SessionCloseReason::AuthExpired)
    ));
    assert_eq!(flow.phase, SessionPhase::Closed);

    let mut other = SessionFlow::attach("org-acme".to_string());
    assert!(matches!(
        other.step(SessionInput::AuthOutcome(Err(AuthVerifyError::Refresh(
            AuthRefreshError::OrgMismatch
        )))),
        SessionDirective::SendErrorAndClose(SessionCloseReason::AuthRejected)
    ));
    assert!(matches!(
        other.step(SessionInput::PeerClosed),
        SessionDirective::Close
    ));
}

#[test]
fn assign_planning_parses_the_new_assignee() {
    let (sid, req) = plan_assign_shared_task(
        900,
        Some("00000000-0000-0000-0000-000000000b0b"),
        Some(3),
    )
    .unwrap();
    assert_eq!(sid, 900);
    assert_eq!(req.new_assignee_user_id, Some(BOB));
    assert_eq!(req.version, Some(3));

    let (_, unassigned) = plan_assign_shared_task(900, None, None).unwrap();
    assert_eq!(unassigned.new_assignee_user_id, None);

    assert!(matches!(
        plan_assign_shared_task(900, Some("not an identifier"), Some(1)),
        Err(ShareError::InvalidUserId)
    ));

    // the authoritative answer replaces the mirror row wholesale
    let mut store = org_store();
    let mut replica = alice_replica();
    let (_, shared_id) = share_a_task(&mut store, &mut replica);
    let answer = assign_task(
        &mut store,
        &ctx(ALICE),
        shared_id,
        tasksync::model::AssignSharedTaskRequest {
            new_assignee_user_id: Some(BOB),
            version: Some(1),
        },
        5000,
    )
    .unwrap();
    record_remote_task(&mut replica, &answer);
    let mirrored = replica.find_shared_task(shared_id).unwrap();
    assert_eq!(mirrored.assignee_user_id, Some(BOB));
    assert_eq!(mirrored.version, 2);
}

#[test]
fn stream_error_frame_demands_reconnect() {
    let mut replica = alice_replica();
    let out = handle_server_message(
        &mut replica,
        &ServerMessage::Error {
            message: "activity backlog dropped".to_string(),
        },
    );
    assert!(out.is_err());
    assert!(replica.cursor_for(REMOTE_PROJECT).is_none());
}
