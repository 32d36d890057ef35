//! Data model of the shared-task synchronization engine.
//!
//! Identifiers that the wire protocol carries as 128-bit UUIDs are modelled
//! as plain `u128` values; organization identifiers are opaque strings.
//! Times are milliseconds since the epoch, sequence numbers and versions are
//! signed 64-bit integers, as in the wire protocol.

use vstd::prelude::*;

verus! {

/// Workflow state of a task.
#[derive(Clone, Copy, PartialEq, Eq, Structural, Debug)]
pub enum TaskStatus {
    Todo,
    InProgress,
    InReview,
    Done,
    Cancelled,
}

/// Resolved summary of the user a task event refers to.
#[derive(Debug)]
pub struct UserData {
    pub id: u128,
    pub first_name: Option<String>,
    pub last_name: Option<String>,
    pub username: Option<String>,
}

/// Mathematical value of a `UserData`.
pub ghost struct UserDataV {
    pub id: u128,
    pub first_name: Option<Seq<char>>,
    pub last_name: Option<Seq<char>>,
    pub username: Option<Seq<char>>,
}

/// Mathematical value of an `Option<String>`.
pub open spec fn opt_str_view(o: Option<String>) -> Option<Seq<char>> {
    match o {
        Some(s) => Some(s@),
        None => None,
    }
}

/// Duplicates an optional string; the copy equals the original.
pub fn clone_opt_string(o: &Option<String>) -> (r: Option<String>)
    ensures
        r == *o,
{
    match o {
        Some(s) => Some(s.clone()),
        None => None,
    }
}

/// Compares two string slices by their character content.
pub fn str_eq(a: &str, b: &str) -> (r: bool)
    ensures
        r == (a@ == b@),
{
    let n = a.unicode_len();
    if n != b.unicode_len() {
        return false;
    }
    let mut i: usize = 0;
    while i < n
        invariant
            n == a@.len(),
            n == b@.len(),
            i <= n,
            forall|j: int| 0 <= j < i ==> a@[j] == b@[j],
        decreases n - i,
    {
        if a.get_char(i) != b.get_char(i) {
            return false;
        }
        i = i + 1;
    }
    proof {
        assert(a@ =~= b@);
    }
    true
}

impl Clone for UserData {
    fn clone(&self) -> (res: Self)
        ensures
            res == *self,
    {
        UserData {
            id: self.id,
            first_name: clone_opt_string(&self.first_name),
            last_name: clone_opt_string(&self.last_name),
            username: clone_opt_string(&self.username),
        }
    }
}

/// Mathematical value of an `Option<UserData>`.
pub open spec fn opt_user_view(o: Option<UserData>) -> Option<UserDataV> {
    match o {
        Some(u) => Some(u@),
        None => None,
    }
}

/// Duplicates an optional user summary; the copy equals the original.
pub fn clone_opt_user(o: &Option<UserData>) -> (r: Option<UserData>)
    ensures
        r == *o,
{
    match o {
        Some(u) => Some(u.clone()),
        None => None,
    }
}

impl View for UserData {
    type V = UserDataV;

    open spec fn view(&self) -> UserDataV {
        UserDataV {
            id: self.id,
            first_name: opt_str_view(self.first_name),
            last_name: opt_str_view(self.last_name),
            username: opt_str_view(self.username),
        }
    }
}

/// A task record as the authoritative remote store holds it.
#[derive(Debug)]
pub struct SharedTask {
    pub id: u128,
    pub organization_id: String,
    pub project_id: u128,
    pub title: String,
    pub description: Option<String>,
    pub status: TaskStatus,
    pub creator_user_id: Option<u128>,
    pub assignee_user_id: Option<u128>,
    pub version: i64,
    pub created_at: i64,
    pub updated_at: i64,
}

/// Mathematical value of a `SharedTask`.
pub ghost struct SharedTaskV {
    pub id: u128,
    pub organization_id: Seq<char>,
    pub project_id: u128,
    pub title: Seq<char>,
    pub description: Option<Seq<char>>,
    pub status: TaskStatus,
    pub creator_user_id: Option<u128>,
    pub assignee_user_id: Option<u128>,
    pub version: i64,
    pub created_at: i64,
    pub updated_at: i64,
}

impl View for SharedTask {
    type V = SharedTaskV;

    open spec fn view(&self) -> SharedTaskV {
        SharedTaskV {
            id: self.id,
            organization_id: self.organization_id@,
            project_id: self.project_id,
            title: self.title@,
            description: opt_str_view(self.description),
            status: self.status,
            creator_user_id: self.creator_user_id,
            assignee_user_id: self.assignee_user_id,
            version: self.version,
            created_at: self.created_at,
            updated_at: self.updated_at,
        }
    }
}

impl Clone for SharedTask {
    fn clone(&self) -> (res: Self)
        ensures
            res == *self,
    {
        SharedTask {
            id: self.id,
            organization_id: self.organization_id.clone(),
            project_id: self.project_id,
            title: self.title.clone(),
            description: clone_opt_string(&self.description),
            status: self.status,
            creator_user_id: self.creator_user_id,
            assignee_user_id: self.assignee_user_id,
            version: self.version,
            created_at: self.created_at,
            updated_at: self.updated_at,
        }
    }
}

/// Task plus resolved user summary, as carried by events and bulk snapshots.
#[derive(Debug)]
pub struct SharedTaskActivityPayload {
    pub task: SharedTask,
    pub user: Option<UserData>,
}

/// Mathematical value of a `SharedTaskActivityPayload`.
pub ghost struct SharedTaskActivityPayloadV {
    pub task: SharedTaskV,
    pub user: Option<UserDataV>,
}

impl View for SharedTaskActivityPayload {
    type V = SharedTaskActivityPayloadV;

    open spec fn view(&self) -> SharedTaskActivityPayloadV {
        SharedTaskActivityPayloadV {
            task: self.task@,
            user: match self.user {
                Some(u) => Some(u@),
                None => None,
            },
        }
    }
}

impl Clone for SharedTaskActivityPayload {
    fn clone(&self) -> (res: Self)
        ensures
            res == *self,
    {
        SharedTaskActivityPayload {
            task: self.task.clone(),
            user: clone_opt_user(&self.user),
        }
    }
}

/// Duplicates an optional payload; the copy equals the original.
pub fn clone_opt_payload(o: &Option<SharedTaskActivityPayload>) -> (r: Option<
    SharedTaskActivityPayload,
>)
    ensures
        r == *o,
{
    match o {
        Some(p) => Some(p.clone()),
        None => None,
    }
}

/// Tag of an activity event: every accepted mutation is one of these.
#[derive(Clone, Copy, PartialEq, Eq, Structural, Debug)]
pub enum ActivityKind {
    Upserted,
    Deleted,
}

/// One durable, sequenced record of an accepted mutation.
///
/// `seq` is strictly increasing per organization.  A payload that the wire
/// could not decode is represented as `None` and is skipped by replicas.
#[derive(Debug)]
pub struct ActivityEvent {
    pub event_id: u128,
    pub organization_id: String,
    pub project_id: u128,
    pub seq: i64,
    pub kind: ActivityKind,
    pub payload: Option<SharedTaskActivityPayload>,
    pub created_at: i64,
}

/// Mathematical value of an `ActivityEvent`.
pub ghost struct ActivityEventV {
    pub event_id: u128,
    pub organization_id: Seq<char>,
    pub project_id: u128,
    pub seq: i64,
    pub kind: ActivityKind,
    pub payload: Option<SharedTaskActivityPayloadV>,
    pub created_at: i64,
}

impl View for ActivityEvent {
    type V = ActivityEventV;

    open spec fn view(&self) -> ActivityEventV {
        ActivityEventV {
            event_id: self.event_id,
            organization_id: self.organization_id@,
            project_id: self.project_id,
            seq: self.seq,
            kind: self.kind,
            payload: match self.payload {
                Some(p) => Some(p@),
                None => None,
            },
            created_at: self.created_at,
        }
    }
}

impl Clone for ActivityEvent {
    fn clone(&self) -> (res: Self)
        ensures
            res == *self,
    {
        ActivityEvent {
            event_id: self.event_id,
            organization_id: self.organization_id.clone(),
            project_id: self.project_id,
            seq: self.seq,
            kind: self.kind,
            payload: clone_opt_payload(&self.payload),
            created_at: self.created_at,
        }
    }
}

/// Body of `PATCH /tasks/{id}`: absent fields keep their stored value.
#[derive(Debug)]
pub struct UpdateSharedTaskRequest {
    pub title: Option<String>,
    pub description: Option<String>,
    pub status: Option<TaskStatus>,
    pub version: Option<i64>,
}

/// Body of `POST /tasks`.
#[derive(Debug)]
pub struct CreateSharedTaskRequest {
    pub project_id: u128,
    pub title: String,
    pub description: Option<String>,
    pub assignee_user_id: Option<u128>,
}

/// Body of `POST /tasks/{id}/assign`.
#[derive(Clone, Copy, Debug)]
pub struct AssignSharedTaskRequest {
    pub new_assignee_user_id: Option<u128>,
    pub version: Option<i64>,
}

/// Body of `DELETE /tasks/{id}`.
#[derive(Clone, Copy, Debug)]
pub struct DeleteSharedTaskRequest {
    pub version: Option<i64>,
}

/// Envelope every task mutation endpoint answers with.
#[derive(Debug)]
pub struct SharedTaskResponse {
    pub task: SharedTask,
    pub user: Option<UserData>,
}

/// Answer of `GET /tasks/bulk`: the full current task set for a scope,
/// the ids of deleted tasks, and the newest sequence number of the scope.
#[derive(Debug)]
pub struct BulkSharedTasksResponse {
    pub tasks: Vec<SharedTaskActivityPayload>,
    pub deleted_task_ids: Vec<u128>,
    pub latest_seq: Option<i64>,
}

/// Longest accepted title, in characters.
pub const MAX_TITLE_CHARS: usize = 1024;

/// Longest accepted description, in characters.
pub const MAX_DESCRIPTION_CHARS: usize = 65536;

/// Whether a title and an optional description are within the size bounds
/// the store accepts.
pub open spec fn text_size_ok(title: Seq<char>, description: Option<Seq<char>>) -> bool {
    &&& title.len() <= MAX_TITLE_CHARS
    &&& match description {
        Some(d) => d.len() <= MAX_DESCRIPTION_CHARS,
        None => true,
    }
}

/// Rejects task text that is over the size bounds.
pub fn ensure_text_size(title: &str, description: Option<&str>) -> (r: bool)
    ensures
        r == text_size_ok(title@, match description {
            Some(d) => Some(d@),
            None => None,
        }),
{
    if title.unicode_len() > MAX_TITLE_CHARS {
        return false;
    }
    match description {
        Some(d) => d.unicode_len() <= MAX_DESCRIPTION_CHARS,
        None => true,
    }
}

} // verus!
