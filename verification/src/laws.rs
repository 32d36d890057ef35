//! The replication laws: idempotent event application, monotone cursors,
//! and deletion convergence, stated and proved over the mathematical
//! transition functions that `Replica::apply_event` is verified against.

use vstd::prelude::*;

use crate::model::{
    ActivityEventV, ActivityKind, BulkSharedTasksResponse, SharedTaskActivityPayloadV,
};
use crate::replica::{
    ReplicaV, apply_event_v, apply_snapshot_v, bump_cursor_v, convert_remote_task_v,
    first_project_for, linked_local_id, locals_bounded, locals_link_unique, payloads_view,
    remove_stale_v, resolve_project_v, snap_has, snap_upsert_v, snap_upserts_v, stale_ids,
    sync_local_v, unlink_v, upsert_task_v,
};
use crate::store::{SharedTaskStoreV, snapshot_describes, summary_of};

verus! {

/// Folding a whole sequence of events into a replica, in order.
pub open spec fn apply_events_v(r: ReplicaV, events: Seq<ActivityEventV>) -> ReplicaV
    decreases events.len(),
{
    if events.len() == 0 {
        r
    } else {
        apply_event_v(apply_events_v(r, events.drop_last()), events.last())
    }
}

/// Applying one activity event twice leaves the same replica state as
/// applying it once.
///
/// The one family of inputs left out: an event whose payload names a task
/// or project other than the event's own scope (`project_id` differing
/// between event and payload, or a mirrored row recorded under a different
/// remote project).  On such an event the local project relinking can
/// differ between the two applications, so idempotence genuinely fails
/// there; the store never emits one — `SharedTaskStore::lemma_log_facts`
/// proves that every logged payload names the event's own project.
pub proof fn lemma_apply_event_idempotent(r: ReplicaV, e: ActivityEventV)
    requires
        locals_link_unique(r.locals),
        match e.payload {
            Some(p) => p.task.project_id == e.project_id && (r.shared.dom().contains(p.task.id)
                ==> r.shared[p.task.id].remote_project_id == e.project_id),
            None => true,
        },
    ensures
        apply_event_v(apply_event_v(r, e), e) == apply_event_v(r, e),
{
    let r1 = apply_event_v(r, e);
    lemma_bump_twice(r.cursors, e.project_id, e.seq);
    match e.payload {
        None => {
            assert(apply_event_v(r1, e) =~~= r1);
        },
        Some(p) => {
            let sid = p.task.id;
            match e.kind {
                ActivityKind::Deleted => {
                    assert(r1.shared == r.shared.remove(sid));
                    assert(r1.shared.remove(sid) =~= r1.shared);
                    assert(unlink_v(unlink_v(r.locals, sid), sid) =~= unlink_v(r.locals, sid));
                    assert(apply_event_v(r1, e) =~~= r1);
                },
                ActivityKind::Upserted => {
                    lemma_upsert_idempotent(r, p, e);
                    let u1 = upsert_task_v(r, p, e.seq, e.project_id);
                    assert(r1 =~~= (ReplicaV {
                        cursors: bump_cursor_v(u1.cursors, e.project_id, e.seq),
                        ..u1
                    }));
                    assert(upsert_task_v(r1, p, e.seq, e.project_id) =~~= (ReplicaV {
                        cursors: r1.cursors,
                        ..upsert_task_v(u1, p, e.seq, e.project_id)
                    }));
                    assert(apply_event_v(r1, e) =~~= r1);
                },
            }
        },
    }
}

/// Bumping a cursor twice with the same sequence number is one bump.
proof fn lemma_bump_twice(cursors: Map<u128, i64>, project_id: u128, seq: i64)
    ensures
        bump_cursor_v(bump_cursor_v(cursors, project_id, seq), project_id, seq) == bump_cursor_v(
            cursors,
            project_id,
            seq,
        ),
{
    assert(bump_cursor_v(bump_cursor_v(cursors, project_id, seq), project_id, seq)
        =~= bump_cursor_v(cursors, project_id, seq));
}

/// The upsert half of idempotence, cursor bookkeeping aside.
proof fn lemma_upsert_idempotent(
    r: ReplicaV,
    p: crate::model::SharedTaskActivityPayloadV,
    e: ActivityEventV,
)
    requires
        locals_link_unique(r.locals),
        p.task.project_id == e.project_id,
        r.shared.dom().contains(p.task.id) ==> r.shared[p.task.id].remote_project_id
            == e.project_id,
        e.payload == Some(p),
        e.kind == ActivityKind::Upserted,
    ensures
        upsert_task_v(upsert_task_v(r, p, e.seq, e.project_id), p, e.seq, e.project_id)
            == upsert_task_v(r, p, e.seq, e.project_id),
{
    let sid = p.task.id;
    let stale1 = r.shared.dom().contains(sid) && (match r.shared[sid].last_event_seq {
        Some(l) => l > e.seq,
        None => false,
    });
    let u1 = upsert_task_v(r, p, e.seq, e.project_id);
    if stale1 {
        assert(u1 == r);
    } else {
        let row = convert_remote_task_v(p, Some(e.seq));
        let project1 = resolve_project_v(r, sid, e.project_id);
        assert(project1 == first_project_for(r.projects, e.project_id));
        // the freshly written row makes the second staleness check pass
        assert(u1.shared[sid] == row);
        assert(!(match u1.shared[sid].last_event_seq {
            Some(l) => l > e.seq,
            None => false,
        }));
        let project2 = resolve_project_v(u1, sid, e.project_id);
        assert(u1.shared[sid].remote_project_id == e.project_id);
        assert(project2 == project1);
        assert(u1.shared.insert(sid, row) =~= u1.shared);
        // the second local reconciliation finds everything already in place
        let l0 = r.locals;
        let sync1 = sync_local_v(
            l0,
            r.next_local_id,
            r.current_user_id,
            p.task.creator_user_id,
            project1,
            row,
        );
        let l1 = sync1.0;
        match linked_local_id(l0, sid) {
            Some(lid) => {
                assert(l0.dom().contains(lid) && l0[lid].shared_task_id == Some(sid));
                assert(l1 == l0.insert(lid, l1[lid]));
                assert(l1[lid].shared_task_id == Some(sid));
                assert(linked_local_id(l1, sid) == Some(lid)) by {
                    assert(l1.dom().contains(lid) && l1[lid].shared_task_id == Some(sid));
                    let k = choose|k: u128|
                        #[trigger] l1.dom().contains(k) && l1[k].shared_task_id == Some(sid);
                    if k != lid {
                        assert(l0.dom().contains(k) && l0[k].shared_task_id == Some(sid));
                    }
                }
                let sync2 = sync_local_v(
                    l1,
                    sync1.1,
                    r.current_user_id,
                    p.task.creator_user_id,
                    project2,
                    row,
                );
                assert(sync2.0 =~= l1);
                assert(sync2.1 == sync1.1);
            },
            None => {
                if crate::replica::should_create_local(
                    r.current_user_id,
                    row.assignee_user_id,
                    p.task.creator_user_id,
                ) && project1 is Some {
                    let n0 = r.next_local_id;
                    assert(l1 == l0.insert(n0, l1[n0]));
                    assert(l1[n0].shared_task_id == Some(sid));
                    assert(linked_local_id(l1, sid) == Some(n0)) by {
                        assert(l1.dom().contains(n0) && l1[n0].shared_task_id == Some(sid));
                        let k = choose|k: u128|
                            #[trigger] l1.dom().contains(k) && l1[k].shared_task_id == Some(sid);
                        if k != n0 {
                            assert(l0.dom().contains(k) && l0[k].shared_task_id == Some(sid));
                            assert(linked_local_id(l0, sid) is Some);
                        }
                    }
                    let sync2 = sync_local_v(
                        l1,
                        sync1.1,
                        r.current_user_id,
                        p.task.creator_user_id,
                        project2,
                        row,
                    );
                    assert(sync2.0 =~= l1);
                    assert(sync2.1 == sync1.1);
                } else {
                    assert(l1 == l0);
                    assert(sync1.1 == r.next_local_id);
                }
            },
        }
        assert(upsert_task_v(u1, p, e.seq, e.project_id) =~~= u1);
    }
}

/// The locally recorded cursor of a scope never decreases when one event is
/// folded in.
pub proof fn lemma_cursor_monotonic(r: ReplicaV, e: ActivityEventV, project_id: u128)
    requires
        r.cursors.dom().contains(project_id),
    ensures
        apply_event_v(r, e).cursors.dom().contains(project_id),
        apply_event_v(r, e).cursors[project_id] >= r.cursors[project_id],
{
}

/// The locally recorded cursor of a scope never decreases across any
/// sequence of event applications.
pub proof fn lemma_cursor_monotonic_fold(r: ReplicaV, events: Seq<ActivityEventV>, project_id: u128)
    requires
        r.cursors.dom().contains(project_id),
    ensures
        apply_events_v(r, events).cursors.dom().contains(project_id),
        apply_events_v(r, events).cursors[project_id] >= r.cursors[project_id],
    decreases events.len(),
{
    if events.len() > 0 {
        lemma_cursor_monotonic_fold(r, events.drop_last(), project_id);
        lemma_cursor_monotonic(apply_events_v(r, events.drop_last()), events.last(), project_id);
    }
}

/// A mirror row's idempotence marker never regresses: an event older than
/// what the row already reflects is not folded into it.
pub proof fn lemma_row_seq_monotonic(r: ReplicaV, e: ActivityEventV, task_id: u128)
    requires
        r.shared.dom().contains(task_id),
        apply_event_v(r, e).shared.dom().contains(task_id),
    ensures
        match (r.shared[task_id].last_event_seq, apply_event_v(r, e).shared[task_id].last_event_seq) {
            (Some(before), Some(after)) => after >= before,
            _ => true,
        },
{
}

/// After a delete event, both the shared-task mirror row and any local link
/// that referenced it are gone.
pub proof fn lemma_delete_converges(r: ReplicaV, e: ActivityEventV)
    requires
        e.kind == ActivityKind::Deleted,
        e.payload is Some,
    ensures
        !apply_event_v(r, e).shared.dom().contains(e.payload->0.task.id),
        forall|k: u128|
            apply_event_v(r, e).locals.dom().contains(k) ==> (#[trigger] apply_event_v(
                r,
                e,
            ).locals[k]).shared_task_id != Some(e.payload->0.task.id),
{
    let sid = e.payload->0.task.id;
    let r1 = apply_event_v(r, e);
    assert(r1.shared == r.shared.remove(sid));
    assert(r1.locals == unlink_v(r.locals, sid));
}

/// What folding a list of snapshot rows leaves behind: every listed task's
/// mirror row is exactly its converted payload; every other id keeps its
/// prior row; and any local row whose link names an unlisted task is
/// untouched.
pub proof fn lemma_snap_upserts_chars(
    r1: ReplicaV,
    tasks: Seq<SharedTaskActivityPayloadV>,
    latest: Option<i64>,
    project_id: u128,
)
    requires
        forall|i: int, j: int|
            0 <= i < tasks.len() && 0 <= j < tasks.len() && (#[trigger] tasks[i].task.id) == (
            #[trigger] tasks[j].task.id) ==> i == j,
        locals_bounded(r1.locals, r1.next_local_id),
        r1.next_local_id + tasks.len() < u128::MAX,
    ensures
        ({
            let r2 = snap_upserts_v(r1, tasks, latest, project_id);
            &&& forall|i: int|
                0 <= i < tasks.len() ==> r2.shared.dom().contains(#[trigger] tasks[i].task.id)
                    && r2.shared[tasks[i].task.id] == convert_remote_task_v(tasks[i], latest)
            &&& forall|k: u128|
                !snap_has(tasks, k) ==> (#[trigger] r2.shared.dom().contains(k))
                    == r1.shared.dom().contains(k) && (r1.shared.dom().contains(k)
                    ==> r2.shared[k] == r1.shared[k])
            &&& forall|k: u128|
                #[trigger] r2.locals.dom().contains(k) && r2.locals[k].shared_task_id is Some
                    && !snap_has(tasks, r2.locals[k].shared_task_id->0)
                    ==> r1.locals.dom().contains(k) && r2.locals[k] == r1.locals[k]
            &&& locals_bounded(r2.locals, r2.next_local_id)
            &&& r1.next_local_id <= r2.next_local_id
            &&& r2.next_local_id <= r1.next_local_id + tasks.len()
        }),
    decreases tasks.len(),
{
    if tasks.len() > 0 {
        let prefix = tasks.drop_last();
        let p = tasks.last();
        lemma_snap_upserts_chars(r1, prefix, latest, project_id);
        let rp = snap_upserts_v(r1, prefix, latest, project_id);
        let r2 = snap_upsert_v(rp, p, latest, project_id);
        let row = convert_remote_task_v(p, latest);
        assert(row.id == p.task.id);
        // the last row's id appears nowhere in the prefix
        assert(!snap_has(prefix, p.task.id)) by {
            if snap_has(prefix, p.task.id) {
                let i = choose|i: int|
                    0 <= i < prefix.len() && (#[trigger] prefix[i].task.id) == p.task.id;
                assert(tasks[i].task.id == tasks[tasks.len() - 1].task.id);
            }
        }
        assert forall|i: int|
            0 <= i < tasks.len() implies r2.shared.dom().contains(#[trigger] tasks[i].task.id)
                && r2.shared[tasks[i].task.id] == convert_remote_task_v(tasks[i], latest) by {
            if i < tasks.len() - 1 {
                assert(prefix[i] == tasks[i]);
                assert(tasks[i].task.id != p.task.id);
            }
        }
        assert forall|k: u128|
            !snap_has(tasks, k) implies (#[trigger] r2.shared.dom().contains(k))
                == r1.shared.dom().contains(k) && (r1.shared.dom().contains(k) ==> r2.shared[k]
                == r1.shared[k]) by {
            assert(!snap_has(prefix, k)) by {
                if snap_has(prefix, k) {
                    let i = choose|i: int|
                        0 <= i < prefix.len() && (#[trigger] prefix[i].task.id) == k;
                    assert(tasks[i].task.id == k);
                    assert(snap_has(tasks, k));
                }
            }
            assert(k != p.task.id) by {
                assert(tasks[tasks.len() - 1].task.id == p.task.id);
            }
        }
        // local rows whose links name unlisted tasks are untouched
        let sync = sync_local_v(
            rp.locals,
            rp.next_local_id,
            rp.current_user_id,
            p.task.creator_user_id,
            resolve_project_v(rp, p.task.id, project_id),
            row,
        );
        assert forall|k: u128|
            #[trigger] r2.locals.dom().contains(k) && r2.locals[k].shared_task_id is Some
                && !snap_has(tasks, r2.locals[k].shared_task_id->0) implies r1.locals.dom()
            .contains(k) && r2.locals[k] == r1.locals[k] by {
            let sid = r2.locals[k].shared_task_id->0;
            assert(sid != p.task.id) by {
                assert(tasks[tasks.len() - 1].task.id == p.task.id);
            }
            assert(!snap_has(prefix, sid)) by {
                if snap_has(prefix, sid) {
                    let i = choose|i: int|
                        0 <= i < prefix.len() && (#[trigger] prefix[i].task.id) == sid;
                    assert(tasks[i].task.id == sid);
                }
            }
            match linked_local_id(rp.locals, row.id) {
                Some(lid) => {
                    assert(rp.locals.dom().contains(lid) && rp.locals[lid].shared_task_id
                        == Some(row.id));
                    if k == lid {
                        assert(r2.locals[k].shared_task_id == Some(row.id));
                        assert(false);
                    }
                    assert(r2.locals[k] == rp.locals[k]);
                },
                None => {
                    if crate::replica::should_create_local(
                        rp.current_user_id,
                        row.assignee_user_id,
                        p.task.creator_user_id,
                    ) && resolve_project_v(rp, p.task.id, project_id) is Some {
                        if k == rp.next_local_id {
                            assert(r2.locals[k].shared_task_id == Some(row.id));
                            assert(false);
                        }
                        assert(r2.locals[k] == rp.locals[k]);
                    } else {
                        assert(r2.locals[k] == rp.locals[k]);
                    }
                },
            }
        }
        assert(rp.next_local_id <= r2.next_local_id);
        assert(locals_bounded(r2.locals, r2.next_local_id)) by {
            assert forall|k: u128| #[trigger] r2.locals.dom().contains(k) implies k
                < r2.next_local_id by {
                if rp.locals.dom().contains(k) {
                    assert(k < rp.next_local_id);
                } else {
                    match linked_local_id(rp.locals, row.id) {
                        Some(lid) => {
                            assert(rp.locals.dom().contains(lid));
                            assert(k == lid);
                        },
                        None => {
                            assert(k == rp.next_local_id);
                            assert(r2.next_local_id == rp.next_local_id + 1);
                        },
                    }
                }
            }
        }
    }
}

/// What a replica's scope looks like right after a bulk snapshot from the
/// authoritative store: for the synchronized project, the mirror rows are
/// exactly the store's current task set — one pure function of the
/// snapshot, never a partial page replay.
pub open spec fn resynced_scope(
    r2: ReplicaV,
    store: SharedTaskStoreV,
    project_id: u128,
    latest: Option<i64>,
) -> bool {
    &&& forall|k: u128|
        store.tasks.dom().contains(k) && (#[trigger] store.tasks[k]).project_id == project_id
            ==> r2.shared.dom().contains(k) && r2.shared[k] == convert_remote_task_v(
            SharedTaskActivityPayloadV {
                task: store.tasks[k],
                user: summary_of(store.users, store.tasks[k].assignee_user_id),
            },
            latest,
        )
    &&& forall|k: u128|
        r2.shared.dom().contains(k) && (#[trigger] r2.shared[k]).remote_project_id == project_id
            ==> store.tasks.dom().contains(k) && store.tasks[k].project_id == project_id
}

/// When the backlog gap forces a bulk snapshot, the replica's state for the
/// scope afterwards equals the pure bulk fetch.
pub proof fn lemma_snapshot_resync(
    r: ReplicaV,
    store: SharedTaskStoreV,
    snap: BulkSharedTasksResponse,
    project_id: u128,
)
    requires
        snapshot_describes(snap, store, project_id),
        locals_bounded(r.locals, r.next_local_id),
        r.next_local_id + snap.tasks@.len() < u128::MAX,
    ensures
        resynced_scope(
            apply_snapshot_v(
                r,
                project_id,
                payloads_view(snap.tasks@),
                snap.deleted_task_ids@,
                snap.latest_seq,
            ),
            store,
            project_id,
            snap.latest_seq,
        ),
        apply_snapshot_v(
            r,
            project_id,
            payloads_view(snap.tasks@),
            snap.deleted_task_ids@,
            snap.latest_seq,
        ).next_local_id <= r.next_local_id + snap.tasks@.len(),
{
    let tasks = payloads_view(snap.tasks@);
    let latest = snap.latest_seq;
    let stale = stale_ids(r, project_id, tasks, snap.deleted_task_ids@);
    let r1 = remove_stale_v(r, stale);
    assert(locals_bounded(r1.locals, r1.next_local_id)) by {
        assert forall|k: u128| #[trigger] r1.locals.dom().contains(k) implies k
            < r1.next_local_id by {
            assert(r.locals.dom().contains(k));
        }
    }
    assert forall|i: int, j: int|
        0 <= i < tasks.len() && 0 <= j < tasks.len() && (#[trigger] tasks[i].task.id) == (
        #[trigger] tasks[j].task.id) implies i == j by {
        assert(tasks[i].task.id == snap.tasks@[i].task.id);
        assert(tasks[j].task.id == snap.tasks@[j].task.id);
    }
    lemma_snap_upserts_chars(r1, tasks, latest, project_id);
    let r2 = snap_upserts_v(r1, tasks, latest, project_id);
    let rfin = apply_snapshot_v(r, project_id, tasks, snap.deleted_task_ids@, latest);
    assert(rfin.shared == r2.shared);
    assert forall|k: u128|
        store.tasks.dom().contains(k) && (#[trigger] store.tasks[k]).project_id
            == project_id implies r2.shared.dom().contains(k) && r2.shared[k]
        == convert_remote_task_v(
        SharedTaskActivityPayloadV {
            task: store.tasks[k],
            user: summary_of(store.users, store.tasks[k].assignee_user_id),
        },
        latest,
    ) by {
        let i = choose|i: int|
            0 <= i < snap.tasks@.len() && (#[trigger] snap.tasks@[i].task.id) == k;
        assert(snap.tasks@[i].task@ == store.tasks[k]);
        assert(tasks[i] == snap.tasks@[i]@);
        assert(tasks[i].task.id == k);
        assert(r2.shared[k] == convert_remote_task_v(tasks[i], latest));
        assert(tasks[i].task == store.tasks[k]);
        assert(tasks[i].user == crate::model::opt_user_view(snap.tasks@[i].user));
        assert(tasks[i].user == summary_of(store.users, store.tasks[k].assignee_user_id));
        assert(tasks[i] == (SharedTaskActivityPayloadV {
            task: store.tasks[k],
            user: summary_of(store.users, store.tasks[k].assignee_user_id),
        }));
    }
    assert forall|k: u128|
        r2.shared.dom().contains(k) && (#[trigger] r2.shared[k]).remote_project_id
            == project_id implies store.tasks.dom().contains(k) && store.tasks[k].project_id
        == project_id by {
        if snap_has(tasks, k) {
            let i = choose|i: int| 0 <= i < tasks.len() && (#[trigger] tasks[i].task.id) == k;
            assert(snap.tasks@[i].task.id == k);
            assert(store.tasks.dom().contains(k));
            assert(snap.tasks@[i].task@ == store.tasks[k]);
            assert(snap.tasks@[i].task.project_id == project_id);
        } else {
            // an unlisted id survived stale removal: it cannot be of the scope
            assert(r1.shared.dom().contains(k));
            assert(r1.shared[k] == r.shared[k]);
            assert(r.shared.dom().contains(k) && !stale.contains(k));
            assert(r.shared[k].remote_project_id == project_id);
            assert(stale.contains(k));
            assert(false);
        }
    }
}

/// After a bulk snapshot that omits a known id — whether because the task
/// was deleted or because it left the scope — both the mirror row and any
/// referencing local link are gone.
pub proof fn lemma_snapshot_deletion_converges(
    r: ReplicaV,
    project_id: u128,
    tasks: Seq<SharedTaskActivityPayloadV>,
    deleted: Seq<u128>,
    latest: Option<i64>,
    sid: u128,
)
    requires
        forall|i: int, j: int|
            0 <= i < tasks.len() && 0 <= j < tasks.len() && (#[trigger] tasks[i].task.id) == (
            #[trigger] tasks[j].task.id) ==> i == j,
        locals_bounded(r.locals, r.next_local_id),
        r.next_local_id + tasks.len() < u128::MAX,
        !snap_has(tasks, sid),
        (r.shared.dom().contains(sid) && r.shared[sid].remote_project_id == project_id)
            || deleted.contains(sid),
    ensures
        !apply_snapshot_v(r, project_id, tasks, deleted, latest).shared.dom().contains(sid),
        forall|k: u128|
            apply_snapshot_v(r, project_id, tasks, deleted, latest).locals.dom().contains(k)
                ==> (#[trigger] apply_snapshot_v(
                r,
                project_id,
                tasks,
                deleted,
                latest,
            ).locals[k]).shared_task_id != Some(sid),
{
    let stale = stale_ids(r, project_id, tasks, deleted);
    assert(stale.contains(sid));
    let r1 = remove_stale_v(r, stale);
    assert(locals_bounded(r1.locals, r1.next_local_id)) by {
        assert forall|k: u128| #[trigger] r1.locals.dom().contains(k) implies k
            < r1.next_local_id by {
            assert(r.locals.dom().contains(k));
        }
    }
    lemma_snap_upserts_chars(r1, tasks, latest, project_id);
    let r2 = snap_upserts_v(r1, tasks, latest, project_id);
    let rfin = apply_snapshot_v(r, project_id, tasks, deleted, latest);
    assert(!r1.shared.dom().contains(sid));
    assert(!r2.shared.dom().contains(sid));
    assert forall|k: u128| rfin.locals.dom().contains(k) implies (
    #[trigger] rfin.locals[k]).shared_task_id != Some(sid) by {
        if r2.locals[k].shared_task_id == Some(sid) {
            assert(r1.locals.dom().contains(k) && r2.locals[k] == r1.locals[k]);
            assert(r1.locals[k].shared_task_id != Some(sid));
        }
    }
}

} // verus!