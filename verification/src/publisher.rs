//! The publishing half of synchronization: turning local mutations into
//! remote task API calls — what to send, and how the authoritative answer
//! is folded back into the replica.  Conflicts and missing resources
//! surface to the caller; they are never retried.

use vstd::prelude::*;

use crate::crypto::{parse_uuid_u128, uuid_parse_of};
use crate::model::{
    AssignSharedTaskRequest, CreateSharedTaskRequest, DeleteSharedTaskRequest, SharedTaskResponse,
    UpdateSharedTaskRequest, clone_opt_string, opt_str_view,
};
use crate::replica::{
    LocalTask, Project, Replica, ReplicaV, convert_remote_task, convert_remote_task_v,
    delete_task_v, linked_local_id,
};

verus! {

/// Errors of the publishing path.
#[derive(Debug)]
pub enum ShareError {
    TaskNotFound(u128),
    ProjectNotFound(u128),
    ProjectNotLinked(u128),
    AlreadyShared(u128),
    InvalidUserId,
    InvalidResponse,
    MissingAuth,
    Transport(String),
    Serialization(String),
}

/// Plans the remote `POST /tasks` call that shares a local task: the task
/// must not be shared yet, its project must be linked to a remote project,
/// and the acting user's textual id must parse; the creator becomes the
/// assignee.
pub fn plan_share_task(task: &LocalTask, project: &Project, user_id: &str) -> (r: Result<
    CreateSharedTaskRequest,
    ShareError,
>)
    ensures
        match r {
            Ok(req) => {
                &&& task.shared_task_id is None
                &&& project.remote_project_id is Some
                &&& uuid_parse_of(user_id@) is Some
                &&& req.project_id == project.remote_project_id->0
                &&& req.title@ == task.title@
                &&& opt_str_view(req.description) == opt_str_view(task.description)
                &&& req.assignee_user_id == Some(uuid_parse_of(user_id@)->0)
            },
            Err(ShareError::AlreadyShared(id)) => id == task.id && task.shared_task_id is Some,
            Err(ShareError::ProjectNotLinked(id)) => id == project.id && task.shared_task_id
                is None && project.remote_project_id is None,
            Err(ShareError::InvalidUserId) => task.shared_task_id is None
                && project.remote_project_id is Some && uuid_parse_of(user_id@) is None,
            Err(_) => false,
        },
{
    if task.shared_task_id.is_some() {
        return Err(ShareError::AlreadyShared(task.id));
    }
    let remote_project_id = match project.remote_project_id {
        Some(rp) => rp,
        None => {
            return Err(ShareError::ProjectNotLinked(project.id));
        },
    };
    let user_uuid = match parse_uuid_u128(user_id) {
        Some(u) => u,
        None => {
            return Err(ShareError::InvalidUserId);
        },
    };
    Ok(
        CreateSharedTaskRequest {
            project_id: remote_project_id,
            title: task.title.clone(),
            description: clone_opt_string(&task.description),
            assignee_user_id: Some(user_uuid),
        },
    )
}

/// Plans the remote `PATCH /tasks/{id}` call for a local edit: nothing to
/// send when the task is not shared; otherwise the full local state goes
/// out, with no version echo — the remote state wins on conflict.
pub fn plan_update_shared_task(task: &LocalTask) -> (r: Option<(u128, UpdateSharedTaskRequest)>)
    ensures
        task.shared_task_id is None ==> r is None,
        task.shared_task_id is Some ==> match r {
            Some((sid, req)) => {
                &&& sid == task.shared_task_id->0
                &&& req.title == Some(task.title)
                &&& opt_str_view(req.description) == opt_str_view(task.description)
                &&& req.status == Some(task.status)
                &&& req.version is None
            },
            None => false,
        },
{
    match task.shared_task_id {
        Some(sid) => Some(
            (
                sid,
                UpdateSharedTaskRequest {
                    title: Some(task.title.clone()),
                    description: clone_opt_string(&task.description),
                    status: Some(task.status),
                    version: None,
                },
            ),
        ),
        None => None,
    }
}

/// Plans the remote `POST /tasks/{id}/assign` call: an assignee handed in
/// as text must parse as an identifier; the caller's version echo is
/// carried so a concurrent edit surfaces as a conflict.
pub fn plan_assign_shared_task(
    shared_task_id: u128,
    new_assignee_user_id: Option<&str>,
    version: Option<i64>,
) -> (r: Result<(u128, AssignSharedTaskRequest), ShareError>)
    ensures
        match r {
            Ok((sid, req)) => {
                &&& sid == shared_task_id
                &&& req.version == version
                &&& match new_assignee_user_id {
                    Some(s) => uuid_parse_of(s@) is Some && req.new_assignee_user_id == Some(
                        uuid_parse_of(s@)->0,
                    ),
                    None => req.new_assignee_user_id is None,
                }
            },
            Err(ShareError::InvalidUserId) => new_assignee_user_id is Some && uuid_parse_of(
                new_assignee_user_id->0@,
            ) is None,
            Err(_) => false,
        },
{
    let assignee = match new_assignee_user_id {
        Some(s) => {
            match parse_uuid_u128(s) {
                Some(u) => Some(u),
                None => {
                    return Err(ShareError::InvalidUserId);
                },
            }
        },
        None => None,
    };
    Ok((shared_task_id, AssignSharedTaskRequest { new_assignee_user_id: assignee, version }))
}

/// Folds the authoritative answer of an assignment call back into the
/// replica: the returned task replaces the mirror row wholesale; local
/// links are untouched.
pub fn record_remote_task(replica: &mut Replica, resp: &SharedTaskResponse)
    requires
        old(replica).wf(),
    ensures
        final(replica).wf(),
        final(replica)@ == (ReplicaV {
            shared: old(replica)@.shared.insert(
                resp.task.id,
                convert_remote_task_v(
                    crate::model::SharedTaskActivityPayloadV {
                        task: resp.task@,
                        user: crate::model::opt_user_view(resp.user),
                    },
                    None,
                ),
            ),
            ..old(replica)@
        }),
{
    let row = convert_remote_task(&resp.task, resp.user.as_ref(), None);
    replica.put_shared_task(row);
}

/// Plans the remote `DELETE /tasks/{id}` call: the stored version is
/// echoed so a concurrent edit surfaces as a conflict.
pub fn plan_delete_shared_task(shared_version: i64) -> (r: DeleteSharedTaskRequest)
    ensures
        r.version == Some(shared_version),
{
    DeleteSharedTaskRequest { version: Some(shared_version) }
}

/// How the task endpoints' HTTP answer is classified, before its body is
/// read.
#[derive(Clone, Copy, PartialEq, Eq, Structural, Debug)]
pub enum TaskResponseClass {
    Success,
    MissingAuth,
    Conflict,
    OtherError,
}

/// Classifies a task endpoint's status code: 401 means the credential is
/// gone, 409 is a version conflict or duplicate share, any other non-2xx
/// is an error, 2xx carries the envelope.
pub fn classify_task_response(status: u16) -> (r: TaskResponseClass)
    ensures
        r == (if status == 401 {
            TaskResponseClass::MissingAuth
        } else if status == 409 {
            TaskResponseClass::Conflict
        } else if 200 <= status < 300 {
            TaskResponseClass::Success
        } else {
            TaskResponseClass::OtherError
        }),
{
    if status == 401 {
        TaskResponseClass::MissingAuth
    } else if status == 409 {
        TaskResponseClass::Conflict
    } else if 200 <= status && status < 300 {
        TaskResponseClass::Success
    } else {
        TaskResponseClass::OtherError
    }
}

/// Folds the authoritative answer of a share or update call back into the
/// replica: the returned task replaces the mirror row wholesale, and the
/// local task is linked to it.
pub fn sync_shared_task(replica: &mut Replica, local_task_id: u128, resp: &SharedTaskResponse)
    requires
        old(replica).wf(),
        old(replica)@.locals.dom().contains(local_task_id),
        linked_local_id(old(replica)@.locals, resp.task.id) is None,
    ensures
        final(replica).wf(),
        ({
            let row = convert_remote_task_v(
                crate::model::SharedTaskActivityPayloadV {
                    task: resp.task@,
                    user: crate::model::opt_user_view(resp.user),
                },
                None,
            );
            final(replica)@ == (ReplicaV {
                shared: old(replica)@.shared.insert(resp.task.id, row),
                locals: old(replica)@.locals.insert(
                    local_task_id,
                    crate::replica::LocalTaskV {
                        shared_task_id: Some(resp.task.id),
                        ..old(replica)@.locals[local_task_id]
                    },
                ),
                ..old(replica)@
            })
        }),
{
    let row = convert_remote_task(&resp.task, resp.user.as_ref(), None);
    replica.put_shared_task(row);
    replica.set_shared_task_id(local_task_id, Some(resp.task.id));
}

/// Folds a completed remote deletion back into the replica: any local task
/// referencing the shared task is unlinked, then the mirror row goes.
pub fn finish_delete_shared_task(replica: &mut Replica, shared_task_id: u128)
    requires
        old(replica).wf(),
    ensures
        final(replica).wf(),
        final(replica)@ == delete_task_v(old(replica)@, shared_task_id),
{
    replica.remove_shared_task(shared_task_id);
}

} // verus!