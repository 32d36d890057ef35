//! The task endpoints' calling layer: it enforces who may mutate — the
//! acting user must be the task's current assignee, and an assignee handed
//! in must be a registered member — and bounds payload sizes.  The store
//! itself enforces only existence and version.

use vstd::prelude::*;

use crate::model::{
    ActivityKind, AssignSharedTaskRequest, BulkSharedTasksResponse, CreateSharedTaskRequest,
    DeleteSharedTaskRequest, SharedTaskResponse, SharedTaskV, TaskStatus, UpdateSharedTaskRequest,
    ensure_text_size, opt_str_view, text_size_ok,
};
use crate::store::{
    AssignTaskData, CreateSharedTaskData, DeleteTaskData, SharedTaskError, SharedTaskStore,
    SharedTaskStoreV, UpdateSharedTaskData, apply_assign_v, apply_update_v, event_v, summary_of,
    version_matches,
};

verus! {

/// The authenticated caller of a task endpoint.
#[derive(Debug)]
pub struct RequestContext {
    pub user_id: u128,
    pub organization_id: String,
}

/// Whether a proposed assignee passes the membership checks: either none
/// was handed in, or the user is registered with the organization.
pub open spec fn assignee_ok(store: SharedTaskStoreV, assignee: Option<u128>) -> bool {
    match assignee {
        Some(a) => store.users.dom().contains(a),
        None => true,
    }
}

/// The title a `PATCH` would store: the payload's when present, else the
/// stored one.
pub open spec fn merged_title(stored: SharedTaskV, payload_title: Option<Seq<char>>) -> Seq<char> {
    match payload_title {
        Some(t) => t,
        None => stored.title,
    }
}

/// The description a `PATCH` would store: the payload's when present, else
/// the stored one.
pub open spec fn merged_description(
    stored: SharedTaskV,
    payload_description: Option<Seq<char>>,
) -> Option<Seq<char>> {
    match payload_description {
        Some(d) => Some(d),
        None => stored.description,
    }
}

/// `POST /tasks`: creates a shared task once the payload passed the size
/// bound and the proposed assignee is a registered member; the acting user
/// is recorded as the creator, and exactly one `Upserted` event is appended
/// in the same atomic step.
pub fn create_shared_task(
    store: &mut SharedTaskStore,
    ctx: &RequestContext,
    payload: CreateSharedTaskRequest,
    now: i64,
) -> (r: Result<SharedTaskResponse, SharedTaskError>)
    requires
        old(store).wf(),
        old(store).headroom(),
    ensures
        final(store).wf(),
        match r {
            Ok(resp) => {
                &&& text_size_ok(payload.title@, opt_str_view(payload.description))
                &&& assignee_ok(old(store)@, payload.assignee_user_id)
                &&& resp.task@ == (SharedTaskV {
                    id: old(store)@.next_uuid,
                    organization_id: old(store)@.organization_id,
                    project_id: payload.project_id,
                    title: payload.title@,
                    description: opt_str_view(payload.description),
                    status: TaskStatus::Todo,
                    creator_user_id: Some(ctx.user_id),
                    assignee_user_id: payload.assignee_user_id,
                    version: 1,
                    created_at: now,
                    updated_at: now,
                })
                &&& !old(store)@.tasks.dom().contains(resp.task.id)
                &&& final(store)@ == (SharedTaskStoreV {
                    tasks: old(store)@.tasks.insert(resp.task.id, resp.task@),
                    log: old(store)@.log.push(
                        event_v(
                            (old(store)@.next_uuid + 1) as u128,
                            old(store)@.organization_id,
                            old(store)@.next_seq,
                            ActivityKind::Upserted,
                            resp.task@,
                            summary_of(old(store)@.users, payload.assignee_user_id),
                            now,
                        ),
                    ),
                    next_seq: (old(store)@.next_seq + 1) as i64,
                    next_uuid: (old(store)@.next_uuid + 2) as u128,
                    ..old(store)@
                })
            },
            Err(SharedTaskError::PayloadTooLarge) => !text_size_ok(
                payload.title@,
                opt_str_view(payload.description),
            ) && final(store)@ == old(store)@,
            Err(SharedTaskError::NotFound) => text_size_ok(
                payload.title@,
                opt_str_view(payload.description),
            ) && !assignee_ok(old(store)@, payload.assignee_user_id) && final(store)@ == old(store)@,
            Err(_) => false,
        },
{
    let desc_ref: Option<&str> = match &payload.description {
        Some(d) => Some(d.as_str()),
        None => None,
    };
    if !ensure_text_size(payload.title.as_str(), desc_ref) {
        return Err(SharedTaskError::PayloadTooLarge);
    }
    match payload.assignee_user_id {
        Some(a) => {
            if !store.has_user(a) {
                return Err(SharedTaskError::NotFound);
            }
        },
        None => {},
    }
    let data = CreateSharedTaskData {
        project_id: payload.project_id,
        title: payload.title,
        description: payload.description,
        creator_user_id: ctx.user_id,
        assignee_user_id: payload.assignee_user_id,
    };
    Ok(store.create(data, now))
}

/// `PATCH /tasks/{id}`: updates a shared task once the acting user proved
/// to be its current assignee and the text as it would be stored passed
/// the size bound; the store's version check decides conflicts.  Each
/// answer is tied to exactly the inputs that cause it.
pub fn update_shared_task(
    store: &mut SharedTaskStore,
    ctx: &RequestContext,
    task_id: u128,
    payload: UpdateSharedTaskRequest,
    now: i64,
) -> (r: Result<SharedTaskResponse, SharedTaskError>)
    requires
        old(store).wf(),
        old(store).headroom(),
    ensures
        final(store).wf(),
        match r {
            Ok(resp) => {
                &&& old(store)@.tasks.dom().contains(task_id)
                &&& old(store)@.tasks[task_id].assignee_user_id == Some(ctx.user_id)
                &&& text_size_ok(
                    merged_title(old(store)@.tasks[task_id], opt_str_view(payload.title)),
                    merged_description(
                        old(store)@.tasks[task_id],
                        opt_str_view(payload.description),
                    ),
                )
                &&& version_matches(old(store)@.tasks[task_id].version, payload.version)
                &&& resp.task@ == apply_update_v(
                    old(store)@.tasks[task_id],
                    opt_str_view(payload.title),
                    opt_str_view(payload.description),
                    payload.status,
                    now,
                )
                &&& final(store)@ == (SharedTaskStoreV {
                    tasks: old(store)@.tasks.insert(task_id, resp.task@),
                    log: old(store)@.log.push(
                        event_v(
                            old(store)@.next_uuid,
                            old(store)@.organization_id,
                            old(store)@.next_seq,
                            ActivityKind::Upserted,
                            resp.task@,
                            summary_of(old(store)@.users, resp.task@.assignee_user_id),
                            now,
                        ),
                    ),
                    next_seq: (old(store)@.next_seq + 1) as i64,
                    next_uuid: (old(store)@.next_uuid + 1) as u128,
                    ..old(store)@
                })
            },
            Err(SharedTaskError::NotFound) => !old(store)@.tasks.dom().contains(task_id)
                && final(store)@ == old(store)@,
            Err(SharedTaskError::Forbidden) => old(store)@.tasks.dom().contains(task_id) && old(store)@.tasks[task_id].assignee_user_id != Some(ctx.user_id) && final(store)@ == old(store)@,
            Err(SharedTaskError::PayloadTooLarge) => {
                &&& old(store)@.tasks.dom().contains(task_id)
                &&& old(store)@.tasks[task_id].assignee_user_id == Some(ctx.user_id)
                &&& !text_size_ok(
                    merged_title(old(store)@.tasks[task_id], opt_str_view(payload.title)),
                    merged_description(
                        old(store)@.tasks[task_id],
                        opt_str_view(payload.description),
                    ),
                )
                &&& final(store)@ == old(store)@
            },
            Err(SharedTaskError::Conflict) => {
                &&& old(store)@.tasks.dom().contains(task_id)
                &&& old(store)@.tasks[task_id].assignee_user_id == Some(ctx.user_id)
                &&& text_size_ok(
                    merged_title(old(store)@.tasks[task_id], opt_str_view(payload.title)),
                    merged_description(
                        old(store)@.tasks[task_id],
                        opt_str_view(payload.description),
                    ),
                )
                &&& !version_matches(old(store)@.tasks[task_id].version, payload.version)
                &&& final(store)@ == old(store)@
            },
        },
{
    let existing = match store.find_by_id(task_id) {
        Some(t) => t,
        None => {
            return Err(SharedTaskError::NotFound);
        },
    };
    let is_assignee = match existing.assignee_user_id {
        Some(a) => a == ctx.user_id,
        None => false,
    };
    if !is_assignee {
        return Err(SharedTaskError::Forbidden);
    }
    // the size bound applies to the text as it would be stored
    let next_title: &str = match &payload.title {
        Some(t) => t.as_str(),
        None => existing.title.as_str(),
    };
    let next_description: Option<&str> = match &payload.description {
        Some(d) => Some(d.as_str()),
        None => match &existing.description {
            Some(d) => Some(d.as_str()),
            None => None,
        },
    };
    let size_ok = ensure_text_size(next_title, next_description);
    proof {
        assert(next_title@ == merged_title(
            old(store)@.tasks[task_id],
            opt_str_view(payload.title),
        ));
        assert((match next_description {
            Some(d) => Some(d@),
            None => None::<Seq<char>>,
        }) == merged_description(old(store)@.tasks[task_id], opt_str_view(payload.description)));
    }
    if !size_ok {
        return Err(SharedTaskError::PayloadTooLarge);
    }
    let data = UpdateSharedTaskData {
        title: payload.title,
        description: payload.description,
        status: payload.status,
        version: payload.version,
        acting_user_id: ctx.user_id,
    };
    store.update(task_id, data, now)
}

/// `POST /tasks/{id}/assign`: transfers assignment once the acting user
/// proved to be the current assignee and the new assignee is a registered
/// member; the store's version check decides conflicts.
pub fn assign_task(
    store: &mut SharedTaskStore,
    ctx: &RequestContext,
    task_id: u128,
    payload: AssignSharedTaskRequest,
    now: i64,
) -> (r: Result<SharedTaskResponse, SharedTaskError>)
    requires
        old(store).wf(),
        old(store).headroom(),
    ensures
        final(store).wf(),
        match r {
            Ok(resp) => {
                &&& old(store)@.tasks.dom().contains(task_id)
                &&& old(store)@.tasks[task_id].assignee_user_id == Some(ctx.user_id)
                &&& assignee_ok(old(store)@, payload.new_assignee_user_id)
                &&& version_matches(old(store)@.tasks[task_id].version, payload.version)
                &&& resp.task@ == apply_assign_v(
                    old(store)@.tasks[task_id],
                    payload.new_assignee_user_id,
                    now,
                )
                &&& final(store)@ == (SharedTaskStoreV {
                    tasks: old(store)@.tasks.insert(task_id, resp.task@),
                    log: old(store)@.log.push(
                        event_v(
                            old(store)@.next_uuid,
                            old(store)@.organization_id,
                            old(store)@.next_seq,
                            ActivityKind::Upserted,
                            resp.task@,
                            summary_of(old(store)@.users, payload.new_assignee_user_id),
                            now,
                        ),
                    ),
                    next_seq: (old(store)@.next_seq + 1) as i64,
                    next_uuid: (old(store)@.next_uuid + 1) as u128,
                    ..old(store)@
                })
            },
            Err(SharedTaskError::NotFound) => final(store)@ == old(store)@ && (!old(store)@.tasks.dom().contains(task_id) || (old(store)@.tasks[task_id].assignee_user_id
                == Some(ctx.user_id) && !assignee_ok(old(store)@, payload.new_assignee_user_id))),
            Err(SharedTaskError::Forbidden) => old(store)@.tasks.dom().contains(task_id) && old(store)@.tasks[task_id].assignee_user_id != Some(ctx.user_id) && final(store)@ == old(store)@,
            Err(SharedTaskError::Conflict) => {
                &&& old(store)@.tasks.dom().contains(task_id)
                &&& old(store)@.tasks[task_id].assignee_user_id == Some(ctx.user_id)
                &&& assignee_ok(old(store)@, payload.new_assignee_user_id)
                &&& !version_matches(old(store)@.tasks[task_id].version, payload.version)
                &&& final(store)@ == old(store)@
            },
            Err(_) => false,
        },
{
    let existing = match store.find_by_id(task_id) {
        Some(t) => t,
        None => {
            return Err(SharedTaskError::NotFound);
        },
    };
    let is_assignee = match existing.assignee_user_id {
        Some(a) => a == ctx.user_id,
        None => false,
    };
    if !is_assignee {
        return Err(SharedTaskError::Forbidden);
    }
    match payload.new_assignee_user_id {
        Some(a) => {
            if !store.has_user(a) {
                return Err(SharedTaskError::NotFound);
            }
        },
        None => {},
    }
    let data = AssignTaskData {
        new_assignee_user_id: payload.new_assignee_user_id,
        previous_assignee_user_id: Some(ctx.user_id),
        version: payload.version,
    };
    store.assign_task(task_id, data, now)
}

/// `DELETE /tasks/{id}`: deletes a shared task once the acting user proved
/// to be its current assignee; the store's version check decides
/// conflicts, and exactly one `Deleted` event carrying the task's last
/// state is appended in the same atomic step.
pub fn delete_shared_task(
    store: &mut SharedTaskStore,
    ctx: &RequestContext,
    task_id: u128,
    payload: Option<DeleteSharedTaskRequest>,
    now: i64,
) -> (r: Result<SharedTaskResponse, SharedTaskError>)
    requires
        old(store).wf(),
        old(store).headroom(),
    ensures
        final(store).wf(),
        ({
            let version = match payload {
                Some(p) => p.version,
                None => None,
            };
            match r {
                Ok(resp) => {
                    &&& old(store)@.tasks.dom().contains(task_id)
                    &&& old(store)@.tasks[task_id].assignee_user_id == Some(ctx.user_id)
                    &&& version_matches(old(store)@.tasks[task_id].version, version)
                    &&& resp.task@ == old(store)@.tasks[task_id]
                    &&& final(store)@ == (SharedTaskStoreV {
                        tasks: old(store)@.tasks.remove(task_id),
                        log: old(store)@.log.push(
                            event_v(
                                old(store)@.next_uuid,
                                old(store)@.organization_id,
                                old(store)@.next_seq,
                                ActivityKind::Deleted,
                                old(store)@.tasks[task_id],
                                summary_of(
                                    old(store)@.users,
                                    old(store)@.tasks[task_id].assignee_user_id,
                                ),
                                now,
                            ),
                        ),
                        deleted: old(store)@.deleted.insert(task_id),
                        next_seq: (old(store)@.next_seq + 1) as i64,
                        next_uuid: (old(store)@.next_uuid + 1) as u128,
                        ..old(store)@
                    })
                },
                Err(SharedTaskError::NotFound) => !old(store)@.tasks.dom().contains(task_id)
                    && final(store)@ == old(store)@,
                Err(SharedTaskError::Forbidden) => old(store)@.tasks.dom().contains(task_id)
                    && old(store)@.tasks[task_id].assignee_user_id != Some(ctx.user_id) && final(store)@ == old(store)@,
                Err(SharedTaskError::Conflict) => {
                    &&& old(store)@.tasks.dom().contains(task_id)
                    &&& old(store)@.tasks[task_id].assignee_user_id == Some(ctx.user_id)
                    &&& !version_matches(old(store)@.tasks[task_id].version, version)
                    &&& final(store)@ == old(store)@
                },
                Err(_) => false,
            }
        }),
{
    let existing = match store.find_by_id(task_id) {
        Some(t) => t,
        None => {
            return Err(SharedTaskError::NotFound);
        },
    };
    let is_assignee = match existing.assignee_user_id {
        Some(a) => a == ctx.user_id,
        None => false,
    };
    if !is_assignee {
        return Err(SharedTaskError::Forbidden);
    }
    let version = match payload {
        Some(p) => p.version,
        None => None,
    };
    let data = DeleteTaskData { acting_user_id: ctx.user_id, version };
    store.delete_task(task_id, data, now)
}

/// `GET /tasks/bulk`: one atomic full snapshot of a scope.
pub fn bulk_shared_tasks(store: &SharedTaskStore, project_id: u128) -> (r: BulkSharedTasksResponse)
    requires
        store.wf(),
    ensures
        crate::store::snapshot_describes(r, store@, project_id),
        r.latest_seq == (if store@.log.len() == 0 {
            None::<i64>
        } else {
            Some(store@.log.last().seq)
        }),
        r.deleted_task_ids@.to_set() == store@.deleted,
{
    store.bulk_fetch(project_id)
}

} // verus!