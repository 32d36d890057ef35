//! The local replica: shared-task mirror rows, local task-board rows with
//! their optional link to a shared task, project linkage, and the per-scope
//! replication cursors.
//!
//! Event application is an idempotent upsert/delete: state is replaced
//! wholesale from the payload, ordering authority is the event's `seq`, and
//! neither a row's `last_event_seq` nor a scope's cursor ever regresses.

use vstd::prelude::*;

use crate::model::{
    ActivityEvent, ActivityEventV, ActivityKind, BulkSharedTasksResponse, SharedTask,
    SharedTaskActivityPayload, SharedTaskActivityPayloadV, TaskStatus, UserData,
    clone_opt_string, opt_str_view,
};

verus! {

/// A shared task as this replica mirrors it, together with the resolved
/// assignee summary and the idempotence marker `last_event_seq`.
#[derive(Debug)]
pub struct ReplicaTask {
    pub id: u128,
    pub organization_id: String,
    pub remote_project_id: u128,
    pub title: String,
    pub description: Option<String>,
    pub status: TaskStatus,
    pub creator_user_id: Option<u128>,
    pub assignee_user_id: Option<u128>,
    pub assignee_first_name: Option<String>,
    pub assignee_last_name: Option<String>,
    pub assignee_username: Option<String>,
    pub version: i64,
    pub last_event_seq: Option<i64>,
    pub created_at: i64,
    pub updated_at: i64,
}

/// Mathematical value of a `ReplicaTask`.
pub ghost struct ReplicaTaskV {
    pub id: u128,
    pub organization_id: Seq<char>,
    pub remote_project_id: u128,
    pub title: Seq<char>,
    pub description: Option<Seq<char>>,
    pub status: TaskStatus,
    pub creator_user_id: Option<u128>,
    pub assignee_user_id: Option<u128>,
    pub assignee_first_name: Option<Seq<char>>,
    pub assignee_last_name: Option<Seq<char>>,
    pub assignee_username: Option<Seq<char>>,
    pub version: i64,
    pub last_event_seq: Option<i64>,
    pub created_at: i64,
    pub updated_at: i64,
}

impl View for ReplicaTask {
    type V = ReplicaTaskV;

    open spec fn view(&self) -> ReplicaTaskV {
        ReplicaTaskV {
            id: self.id,
            organization_id: self.organization_id@,
            remote_project_id: self.remote_project_id,
            title: self.title@,
            description: opt_str_view(self.description),
            status: self.status,
            creator_user_id: self.creator_user_id,
            assignee_user_id: self.assignee_user_id,
            assignee_first_name: opt_str_view(self.assignee_first_name),
            assignee_last_name: opt_str_view(self.assignee_last_name),
            assignee_username: opt_str_view(self.assignee_username),
            version: self.version,
            last_event_seq: self.last_event_seq,
            created_at: self.created_at,
            updated_at: self.updated_at,
        }
    }
}

impl Clone for ReplicaTask {
    fn clone(&self) -> (res: Self)
        ensures
            res == *self,
    {
        ReplicaTask {
            id: self.id,
            organization_id: self.organization_id.clone(),
            remote_project_id: self.remote_project_id,
            title: self.title.clone(),
            description: clone_opt_string(&self.description),
            status: self.status,
            creator_user_id: self.creator_user_id,
            assignee_user_id: self.assignee_user_id,
            assignee_first_name: clone_opt_string(&self.assignee_first_name),
            assignee_last_name: clone_opt_string(&self.assignee_last_name),
            assignee_username: clone_opt_string(&self.assignee_username),
            version: self.version,
            last_event_seq: self.last_event_seq,
            created_at: self.created_at,
            updated_at: self.updated_at,
        }
    }
}

/// A row of the local task board, with its optional link to a shared task.
#[derive(Debug)]
pub struct LocalTask {
    pub id: u128,
    pub project_id: u128,
    pub title: String,
    pub description: Option<String>,
    pub status: TaskStatus,
    pub shared_task_id: Option<u128>,
}

/// Mathematical value of a `LocalTask`.
pub ghost struct LocalTaskV {
    pub id: u128,
    pub project_id: u128,
    pub title: Seq<char>,
    pub description: Option<Seq<char>>,
    pub status: TaskStatus,
    pub shared_task_id: Option<u128>,
}

impl View for LocalTask {
    type V = LocalTaskV;

    open spec fn view(&self) -> LocalTaskV {
        LocalTaskV {
            id: self.id,
            project_id: self.project_id,
            title: self.title@,
            description: opt_str_view(self.description),
            status: self.status,
            shared_task_id: self.shared_task_id,
        }
    }
}

impl Clone for LocalTask {
    fn clone(&self) -> (res: Self)
        ensures
            res == *self,
    {
        LocalTask {
            id: self.id,
            project_id: self.project_id,
            title: self.title.clone(),
            description: clone_opt_string(&self.description),
            status: self.status,
            shared_task_id: self.shared_task_id,
        }
    }
}

/// A local project and its optional linkage to a remote project.
#[derive(Clone, Copy, PartialEq, Eq, Structural, Debug)]
pub struct Project {
    pub id: u128,
    pub remote_project_id: Option<u128>,
}

/// One scope's replication cursor: the highest sequence number folded in.
#[derive(Clone, Copy, PartialEq, Eq, Structural, Debug)]
pub struct CursorRow {
    pub project_id: u128,
    pub last_seq: i64,
}

/// Whether a sequence of replica rows has no repeated id.
pub open spec fn rt_ids_unique(s: Seq<ReplicaTask>) -> bool {
    forall|i: int, j: int|
        0 <= i < s.len() && 0 <= j < s.len() && #[trigger] s[i].id == #[trigger] s[j].id ==> i == j
}

/// Whether some replica row of `s` has the id `k`.
pub open spec fn rt_contain(s: Seq<ReplicaTask>, k: u128) -> bool {
    exists|i: int| 0 <= i < s.len() && #[trigger] s[i].id == k
}

/// An index of the replica row with id `k`.
pub open spec fn rt_idx(s: Seq<ReplicaTask>, k: u128) -> int {
    choose|i: int| 0 <= i < s.len() && #[trigger] s[i].id == k
}

/// The replica rows of `s` as a map from id to mathematical value.
pub open spec fn rt_as_map(s: Seq<ReplicaTask>) -> Map<u128, ReplicaTaskV> {
    Map::new(|k: u128| rt_contain(s, k), |k: u128| s[rt_idx(s, k)]@)
}

/// With unique ids, any index holding id `k` is the denoted index.
pub proof fn lemma_rt_idx_unique(s: Seq<ReplicaTask>, j: int, k: u128)
    requires
        rt_ids_unique(s),
        0 <= j < s.len(),
        s[j].id == k,
    ensures
        rt_contain(s, k),
        rt_idx(s, k) == j,
{
    assert(rt_contain(s, k));
    let i = rt_idx(s, k);
    assert(0 <= i < s.len() && s[i].id == k);
}

/// Whether a sequence of local rows has no repeated id.
pub open spec fn lt_ids_unique(s: Seq<LocalTask>) -> bool {
    forall|i: int, j: int|
        0 <= i < s.len() && 0 <= j < s.len() && #[trigger] s[i].id == #[trigger] s[j].id ==> i == j
}

/// Whether some local row of `s` has the id `k`.
pub open spec fn lt_contain(s: Seq<LocalTask>, k: u128) -> bool {
    exists|i: int| 0 <= i < s.len() && #[trigger] s[i].id == k
}

/// An index of the local row with id `k`.
pub open spec fn lt_idx(s: Seq<LocalTask>, k: u128) -> int {
    choose|i: int| 0 <= i < s.len() && #[trigger] s[i].id == k
}

/// The local rows of `s` as a map from id to mathematical value.
pub open spec fn lt_as_map(s: Seq<LocalTask>) -> Map<u128, LocalTaskV> {
    Map::new(|k: u128| lt_contain(s, k), |k: u128| s[lt_idx(s, k)]@)
}

/// With unique ids, any index holding id `k` is the denoted index.
pub proof fn lemma_lt_idx_unique(s: Seq<LocalTask>, j: int, k: u128)
    requires
        lt_ids_unique(s),
        0 <= j < s.len(),
        s[j].id == k,
    ensures
        lt_contain(s, k),
        lt_idx(s, k) == j,
{
    assert(lt_contain(s, k));
    let i = lt_idx(s, k);
    assert(0 <= i < s.len() && s[i].id == k);
}

/// Whether a sequence of cursor rows has no repeated project.
pub open spec fn cur_ids_unique(s: Seq<CursorRow>) -> bool {
    forall|i: int, j: int|
        0 <= i < s.len() && 0 <= j < s.len() && #[trigger] s[i].project_id
            == #[trigger] s[j].project_id ==> i == j
}

/// Whether some cursor row of `s` is for project `k`.
pub open spec fn cur_contain(s: Seq<CursorRow>, k: u128) -> bool {
    exists|i: int| 0 <= i < s.len() && #[trigger] s[i].project_id == k
}

/// An index of the cursor row for project `k`.
pub open spec fn cur_idx(s: Seq<CursorRow>, k: u128) -> int {
    choose|i: int| 0 <= i < s.len() && #[trigger] s[i].project_id == k
}

/// The cursor rows of `s` as a map from project to last folded-in sequence.
pub open spec fn cur_as_map(s: Seq<CursorRow>) -> Map<u128, i64> {
    Map::new(|k: u128| cur_contain(s, k), |k: u128| s[cur_idx(s, k)].last_seq)
}

/// With unique projects, any index holding project `k` is the denoted index.
pub proof fn lemma_cur_idx_unique(s: Seq<CursorRow>, j: int, k: u128)
    requires
        cur_ids_unique(s),
        0 <= j < s.len(),
        s[j].project_id == k,
    ensures
        cur_contain(s, k),
        cur_idx(s, k) == j,
{
    assert(cur_contain(s, k));
    let i = cur_idx(s, k);
    assert(0 <= i < s.len() && s[i].project_id == k);
}

/// Mathematical state of a replica.
pub ghost struct ReplicaV {
    pub current_user_id: Option<u128>,
    pub shared: Map<u128, ReplicaTaskV>,
    pub locals: Map<u128, LocalTaskV>,
    pub projects: Seq<Project>,
    pub cursors: Map<u128, i64>,
    pub next_local_id: u128,
}

/// The replica row a remote payload converts to, wholesale.
pub open spec fn convert_remote_task_v(
    p: SharedTaskActivityPayloadV,
    last_event_seq: Option<i64>,
) -> ReplicaTaskV {
    ReplicaTaskV {
        id: p.task.id,
        organization_id: p.task.organization_id,
        remote_project_id: p.task.project_id,
        title: p.task.title,
        description: p.task.description,
        status: p.task.status,
        creator_user_id: p.task.creator_user_id,
        assignee_user_id: p.task.assignee_user_id,
        assignee_first_name: match p.user {
            Some(u) => u.first_name,
            None => None,
        },
        assignee_last_name: match p.user {
            Some(u) => u.last_name,
            None => None,
        },
        assignee_username: match p.user {
            Some(u) => u.username,
            None => None,
        },
        version: p.task.version,
        last_event_seq,
        created_at: p.task.created_at,
        updated_at: p.task.updated_at,
    }
}

/// The first local project whose remote linkage is `rpid`.
pub open spec fn first_project_for(s: Seq<Project>, rpid: u128) -> Option<u128>
    decreases s.len(),
{
    if s.len() == 0 {
        None
    } else if s[0].remote_project_id == Some(rpid) {
        Some(s[0].id)
    } else {
        first_project_for(s.drop_first(), rpid)
    }
}

/// Project resolution for an incoming task: linkage already recorded for the
/// task wins; else the event's remote project decides; unresolved stays
/// unlinked awaiting a later backfill.
pub open spec fn resolve_project_v(r: ReplicaV, task_id: u128, rpid: u128) -> Option<u128> {
    if r.shared.dom().contains(task_id) && first_project_for(
        r.projects,
        r.shared[task_id].remote_project_id,
    ) is Some {
        first_project_for(r.projects, r.shared[task_id].remote_project_id)
    } else {
        first_project_for(r.projects, rpid)
    }
}

/// The id of the local task linked to shared task `sid`, if one exists.
pub open spec fn linked_local_id(locals: Map<u128, LocalTaskV>, sid: u128) -> Option<u128> {
    if exists|k: u128|
        #[trigger] locals.dom().contains(k) && locals[k].shared_task_id == Some(sid) {
        Some(
            choose|k: u128|
                #[trigger] locals.dom().contains(k) && locals[k].shared_task_id == Some(sid),
        )
    } else {
        None
    }
}

/// All local rows linked to `sid` lose their link; the rows stay.
pub open spec fn unlink_v(locals: Map<u128, LocalTaskV>, sid: u128) -> Map<u128, LocalTaskV> {
    Map::new(
        |k: u128| locals.dom().contains(k),
        |k: u128|
            if locals[k].shared_task_id == Some(sid) {
                LocalTaskV { shared_task_id: None, ..locals[k] }
            } else {
                locals[k]
            },
    )
}

/// Whether an unseen shared task assigned to the current user warrants a
/// fresh linked local task: the user is the assignee but not the creator,
/// whose local task already exists from the share operation.
pub open spec fn should_create_local(
    current: Option<u128>,
    assignee: Option<u128>,
    creator: Option<u128>,
) -> bool {
    &&& match (assignee, current) {
        (Some(a), Some(c)) => a == c,
        _ => false,
    }
    &&& !(match (creator, current) {
        (Some(cr), Some(c)) => cr == c,
        _ => false,
    })
}

/// Local reconciliation after a shared-task upsert: an already linked local
/// task takes the payload's fields; else, when the current user is the
/// listed assignee (and not the creator) and the project resolved, a fresh
/// linked local task is created.
pub open spec fn sync_local_v(
    locals: Map<u128, LocalTaskV>,
    next_local_id: u128,
    current: Option<u128>,
    creator: Option<u128>,
    project: Option<u128>,
    row: ReplicaTaskV,
) -> (Map<u128, LocalTaskV>, u128) {
    match linked_local_id(locals, row.id) {
        Some(lid) => (
            locals.insert(
                lid,
                LocalTaskV {
                    project_id: match project {
                        Some(p) => p,
                        None => locals[lid].project_id,
                    },
                    title: row.title,
                    description: row.description,
                    status: row.status,
                    ..locals[lid]
                },
            ),
            next_local_id,
        ),
        None => {
            if should_create_local(current, row.assignee_user_id, creator) {
                match project {
                    Some(p) => (
                        locals.insert(
                            next_local_id,
                            LocalTaskV {
                                id: next_local_id,
                                project_id: p,
                                title: row.title,
                                description: row.description,
                                status: row.status,
                                shared_task_id: Some(row.id),
                            },
                        ),
                        (next_local_id + 1) as u128,
                    ),
                    None => (locals, next_local_id),
                }
            } else {
                (locals, next_local_id)
            }
        },
    }
}

/// Whether at most one local task of the board links any given shared task.
pub open spec fn locals_link_unique(locals: Map<u128, LocalTaskV>) -> bool {
    forall|k1: u128, k2: u128|
        locals.dom().contains(k1) && locals.dom().contains(k2)
            && (#[trigger] locals[k1].shared_task_id) is Some && locals[k1].shared_task_id == (
        #[trigger] locals[k2].shared_task_id) ==> k1 == k2
}

/// Whether every key of the local board lies below the id generator.
pub open spec fn locals_bounded(locals: Map<u128, LocalTaskV>, next_local_id: u128) -> bool {
    forall|k: u128| #[trigger] locals.dom().contains(k) ==> k < next_local_id
}

/// The cursor of a scope after folding in `seq`: it only ever moves forward.
pub open spec fn bump_cursor_v(cursors: Map<u128, i64>, project_id: u128, seq: i64) -> Map<
    u128,
    i64,
> {
    if cursors.dom().contains(project_id) && cursors[project_id] >= seq {
        cursors
    } else {
        cursors.insert(project_id, seq)
    }
}

/// A delete event: the shared row goes, any referencing local link is cleared.
pub open spec fn delete_task_v(r: ReplicaV, sid: u128) -> ReplicaV {
    ReplicaV { shared: r.shared.remove(sid), locals: unlink_v(r.locals, sid), ..r }
}

/// An upsert event: unless the event is older than what the row already
/// reflects, the payload replaces the row wholesale and the local board is
/// reconciled.
pub open spec fn upsert_task_v(
    r: ReplicaV,
    p: SharedTaskActivityPayloadV,
    seq: i64,
    event_project: u128,
) -> ReplicaV {
    let stale = r.shared.dom().contains(p.task.id) && (match r.shared[p.task.id].last_event_seq {
        Some(l) => l > seq,
        None => false,
    });
    if stale {
        r
    } else {
        let project = resolve_project_v(r, p.task.id, event_project);
        let row = convert_remote_task_v(p, Some(seq));
        let sync = sync_local_v(
            r.locals,
            r.next_local_id,
            r.current_user_id,
            p.task.creator_user_id,
            project,
            row,
        );
        ReplicaV {
            shared: r.shared.insert(row.id, row),
            locals: sync.0,
            next_local_id: sync.1,
            ..r
        }
    }
}

/// Mathematical value of a vector of payloads.
pub open spec fn payloads_view(v: Seq<SharedTaskActivityPayload>) -> Seq<
    SharedTaskActivityPayloadV,
> {
    v.map_values(|p: SharedTaskActivityPayload| p@)
}

/// Whether a snapshot's task list carries the id `k`.
pub open spec fn snap_has(tasks: Seq<SharedTaskActivityPayloadV>, k: u128) -> bool {
    exists|i: int| 0 <= i < tasks.len() && (#[trigger] tasks[i].task.id) == k
}

/// The ids a bulk snapshot retires: mirrored rows of the scope that the
/// snapshot omits, and explicitly deleted ids, except those the snapshot
/// still carries.
pub open spec fn stale_ids(
    r: ReplicaV,
    project_id: u128,
    tasks: Seq<SharedTaskActivityPayloadV>,
    deleted: Seq<u128>,
) -> Set<u128> {
    Set::new(
        |k: u128|
            !snap_has(tasks, k) && ((r.shared.dom().contains(k) && r.shared[k].remote_project_id
                == project_id) || deleted.contains(k)),
    )
}

/// Retiring a set of ids at once: their mirror rows go, and local links to
/// them are cleared.
pub open spec fn remove_stale_v(r: ReplicaV, stale: Set<u128>) -> ReplicaV {
    ReplicaV {
        shared: Map::new(
            |k: u128| r.shared.dom().contains(k) && !stale.contains(k),
            |k: u128| r.shared[k],
        ),
        locals: Map::new(
            |k: u128| r.locals.dom().contains(k),
            |k: u128|
                match r.locals[k].shared_task_id {
                    Some(s) => if stale.contains(s) {
                        LocalTaskV { shared_task_id: None, ..r.locals[k] }
                    } else {
                        r.locals[k]
                    },
                    None => r.locals[k],
                },
        ),
        ..r
    }
}

/// One snapshot row folded in: an unconditional wholesale upsert plus local
/// reconciliation, stamping the snapshot's `latest_seq` marker.
pub open spec fn snap_upsert_v(
    r: ReplicaV,
    p: SharedTaskActivityPayloadV,
    latest: Option<i64>,
    project_id: u128,
) -> ReplicaV {
    let project = resolve_project_v(r, p.task.id, project_id);
    let row = convert_remote_task_v(p, latest);
    let sync = sync_local_v(
        r.locals,
        r.next_local_id,
        r.current_user_id,
        p.task.creator_user_id,
        project,
        row,
    );
    ReplicaV { shared: r.shared.insert(row.id, row), locals: sync.0, next_local_id: sync.1, ..r }
}

/// All snapshot rows folded in, in order.
pub open spec fn snap_upserts_v(
    r: ReplicaV,
    tasks: Seq<SharedTaskActivityPayloadV>,
    latest: Option<i64>,
    project_id: u128,
) -> ReplicaV
    decreases tasks.len(),
{
    if tasks.len() == 0 {
        r
    } else {
        snap_upsert_v(snap_upserts_v(r, tasks.drop_last(), latest, project_id), tasks.last(), latest, project_id)
    }
}

/// A whole bulk snapshot folded into a replica: stale rows retired, every
/// returned row upserted, and the scope's cursor advanced to `latest_seq`.
pub open spec fn apply_snapshot_v(
    r: ReplicaV,
    project_id: u128,
    tasks: Seq<SharedTaskActivityPayloadV>,
    deleted: Seq<u128>,
    latest: Option<i64>,
) -> ReplicaV {
    let r1 = remove_stale_v(r, stale_ids(r, project_id, tasks, deleted));
    let r2 = snap_upserts_v(r1, tasks, latest, project_id);
    ReplicaV {
        cursors: match latest {
            Some(l) => bump_cursor_v(r2.cursors, project_id, l),
            None => r2.cursors,
        },
        ..r2
    }
}

/// One activity event folded into a replica.  An event whose payload could
/// not be decoded is skipped; the scope's cursor advances either way and
/// never regresses.
pub open spec fn apply_event_v(r: ReplicaV, e: ActivityEventV) -> ReplicaV {
    let r1 = match e.payload {
        None => r,
        Some(p) => match e.kind {
            ActivityKind::Deleted => delete_task_v(r, p.task.id),
            ActivityKind::Upserted => upsert_task_v(r, p, e.seq, e.project_id),
        },
    };
    ReplicaV { cursors: bump_cursor_v(r1.cursors, e.project_id, e.seq), ..r1 }
}

/// Turns a remote task plus its resolved user summary into the replica row
/// that mirrors it, stamping the idempotence marker.
pub fn convert_remote_task(
    task: &SharedTask,
    user: Option<&UserData>,
    last_event_seq: Option<i64>,
) -> (r: ReplicaTask)
    ensures
        r@ == convert_remote_task_v(
            SharedTaskActivityPayloadV {
                task: task@,
                user: match user {
                    Some(u) => Some(u@),
                    None => None,
                },
            },
            last_event_seq,
        ),
{
    ReplicaTask {
        id: task.id,
        organization_id: task.organization_id.clone(),
        remote_project_id: task.project_id,
        title: task.title.clone(),
        description: clone_opt_string(&task.description),
        status: task.status,
        creator_user_id: task.creator_user_id,
        assignee_user_id: task.assignee_user_id,
        assignee_first_name: match user {
            Some(u) => clone_opt_string(&u.first_name),
            None => None,
        },
        assignee_last_name: match user {
            Some(u) => clone_opt_string(&u.last_name),
            None => None,
        },
        assignee_username: match user {
            Some(u) => clone_opt_string(&u.username),
            None => None,
        },
        version: task.version,
        last_event_seq,
        created_at: task.created_at,
        updated_at: task.updated_at,
    }
}

/// One local replica: the mirrored shared tasks, the local task board with
/// its links, the known projects, and the replication cursors.
pub struct Replica {
    current_user_id: Option<u128>,
    shared: Vec<ReplicaTask>,
    locals: Vec<LocalTask>,
    projects: Vec<Project>,
    cursors: Vec<CursorRow>,
    next_local_id: u128,
}

impl View for Replica {
    type V = ReplicaV;

    closed spec fn view(&self) -> ReplicaV {
        ReplicaV {
            current_user_id: self.current_user_id,
            shared: rt_as_map(self.shared@),
            locals: lt_as_map(self.locals@),
            projects: self.projects@,
            cursors: cur_as_map(self.cursors@),
            next_local_id: self.next_local_id,
        }
    }
}

impl Replica {
    /// Internal well-formedness: unique ids everywhere, at most one local
    /// task linked to a given shared task, and locally generated ids below
    /// the generator.
    pub closed spec fn wf(&self) -> bool {
        &&& rt_ids_unique(self.shared@)
        &&& lt_ids_unique(self.locals@)
        &&& cur_ids_unique(self.cursors@)
        &&& forall|i: int, j: int|
            0 <= i < self.locals@.len() && 0 <= j < self.locals@.len()
                && (#[trigger] self.locals@[i].shared_task_id) is Some
                && self.locals@[i].shared_task_id == (#[trigger] self.locals@[j].shared_task_id)
                ==> i == j
        &&& forall|i: int|
            0 <= i < self.locals@.len() ==> #[trigger] self.locals@[i].id < self.next_local_id
    }

    /// Room left in the local id generator; every realistic state has it.
    pub open spec fn headroom(&self) -> bool {
        self@.next_local_id < u128::MAX
    }

    /// A fresh replica owned by the given user.
    pub fn new(current_user_id: Option<u128>) -> (r: Replica)
        ensures
            r.wf(),
            r.headroom(),
            r@.current_user_id == current_user_id,
            r@.shared == Map::<u128, ReplicaTaskV>::empty(),
            r@.locals == Map::<u128, LocalTaskV>::empty(),
            r@.projects == Seq::<Project>::empty(),
            r@.cursors == Map::<u128, i64>::empty(),
            r@.next_local_id == 1,
    {
        let r = Replica {
            current_user_id,
            shared: Vec::new(),
            locals: Vec::new(),
            projects: Vec::new(),
            cursors: Vec::new(),
            next_local_id: 1,
        };
        proof {
            assert(r@.shared =~= Map::<u128, ReplicaTaskV>::empty());
            assert(r@.locals =~= Map::<u128, LocalTaskV>::empty());
            assert(r@.cursors =~= Map::<u128, i64>::empty());
            assert(r@.projects =~= Seq::<Project>::empty());
        }
        r
    }

    /// Registers a local project and its optional remote linkage.
    pub fn add_project(&mut self, project: Project)
        requires
            old(self).wf(),
            old(self).headroom(),
        ensures
            final(self).wf(),
            final(self).headroom(),
            final(self)@ == (ReplicaV { projects: old(self)@.projects.push(project), ..old(self)@ }),
    {
        self.projects.push(project);
        proof {
            assert(self@ =~~= (ReplicaV { projects: old(self)@.projects.push(project), ..old(self)@ }));
        }
    }

    /// The mirrored shared task with the given id, if any.
    pub fn find_shared_task(&self, task_id: u128) -> (r: Option<ReplicaTask>)
        requires
            self.wf(),
        ensures
            match r {
                Some(t) => self@.shared.dom().contains(task_id) && t@ == self@.shared[task_id]
                    && t.id == task_id,
                None => !self@.shared.dom().contains(task_id),
            },
    {
        match self.find_shared_index(task_id) {
            Some(i) => {
                let t = self.shared[i].clone();
                proof {
                    lemma_rt_idx_unique(self.shared@, i as int, task_id);
                }
                Some(t)
            },
            None => None,
        }
    }

    /// The local task linked to the given shared task, if any.
    pub fn find_local_by_shared_task_id(&self, shared_task_id: u128) -> (r: Option<LocalTask>)
        requires
            self.wf(),
        ensures
            match r {
                Some(t) => linked_local_id(self@.locals, shared_task_id) == Some(t.id)
                    && self@.locals.dom().contains(t.id) && t@ == self@.locals[t.id],
                None => linked_local_id(self@.locals, shared_task_id) is None,
            },
    {
        match self.find_local_link_index(shared_task_id) {
            Some(i) => {
                let t = self.locals[i].clone();
                proof {
                    lemma_lt_idx_unique(self.locals@, i as int, t.id);
                }
                Some(t)
            },
            None => None,
        }
    }

    /// The local task with the given id, if any.
    pub fn find_local_task(&self, local_id: u128) -> (r: Option<LocalTask>)
        requires
            self.wf(),
        ensures
            match r {
                Some(t) => self@.locals.dom().contains(local_id) && t@ == self@.locals[local_id]
                    && t.id == local_id,
                None => !self@.locals.dom().contains(local_id),
            },
    {
        let n = self.locals.len();
        let mut i: usize = 0;
        while i < n
            invariant
                self.wf(),
                n == self.locals@.len(),
                i <= n,
                forall|j: int| 0 <= j < i ==> #[trigger] self.locals@[j].id != local_id,
            decreases n - i,
        {
            if self.locals[i].id == local_id {
                let t = self.locals[i].clone();
                proof {
                    lemma_lt_idx_unique(self.locals@, i as int, local_id);
                }
                return Some(t);
            }
            i = i + 1;
        }
        proof {
            assert(!lt_contain(self.locals@, local_id));
        }
        None
    }

    /// The recorded cursor of a scope: the resumption point after restart.
    pub fn cursor_for(&self, project_id: u128) -> (r: Option<i64>)
        requires
            self.wf(),
        ensures
            r == if self@.cursors.dom().contains(project_id) {
                Some(self@.cursors[project_id])
            } else {
                None::<i64>
            },
    {
        let n = self.cursors.len();
        let mut i: usize = 0;
        while i < n
            invariant
                self.wf(),
                n == self.cursors@.len(),
                i <= n,
                forall|j: int| 0 <= j < i ==> #[trigger] self.cursors@[j].project_id != project_id,
            decreases n - i,
        {
            if self.cursors[i].project_id == project_id {
                proof {
                    lemma_cur_idx_unique(self.cursors@, i as int, project_id);
                }
                return Some(self.cursors[i].last_seq);
            }
            i = i + 1;
        }
        proof {
            assert(!cur_contain(self.cursors@, project_id));
        }
        None
    }

    /// Creates an ordinary local task, not yet linked to any shared task.
    pub fn create_local_task(
        &mut self,
        project_id: u128,
        title: String,
        description: Option<String>,
        status: TaskStatus,
    ) -> (r: u128)
        requires
            old(self).wf(),
            old(self).headroom(),
        ensures
            final(self).wf(),
            r == old(self)@.next_local_id,
            !old(self)@.locals.dom().contains(r),
            final(self)@ == (ReplicaV {
                locals: old(self)@.locals.insert(
                    r,
                    LocalTaskV {
                        id: r,
                        project_id,
                        title: title@,
                        description: opt_str_view(description),
                        status,
                        shared_task_id: None,
                    },
                ),
                next_local_id: (old(self)@.next_local_id + 1) as u128,
                ..old(self)@
            }),
    {
        let id = self.next_local_id;
        let row = LocalTask {
            id,
            project_id,
            title,
            description,
            status,
            shared_task_id: None,
        };
        let ghost s_old = self.locals@;
        proof {
            assert(!lt_contain(s_old, id));
        }
        self.locals.push(row);
        self.next_local_id = self.next_local_id + 1;
        proof {
            self.lemma_lt_push(s_old, id);
            assert(self@ =~~= (ReplicaV {
                locals: lt_as_map(s_old).insert(id, self.locals@.last()@),
                next_local_id: (old(self)@.next_local_id + 1) as u128,
                ..old(self)@
            }));
        }
        id
    }

    /// Sets or clears a local task's link to a shared task.
    pub fn set_shared_task_id(&mut self, local_id: u128, link: Option<u128>)
        requires
            old(self).wf(),
            old(self)@.locals.dom().contains(local_id),
            link is Some ==> linked_local_id(old(self)@.locals, link->0) is None,
        ensures
            final(self).wf(),
            final(self)@ == (ReplicaV {
                locals: old(self)@.locals.insert(
                    local_id,
                    LocalTaskV { shared_task_id: link, ..old(self)@.locals[local_id] },
                ),
                ..old(self)@
            }),
    {
        let n = self.locals.len();
        let mut i: usize = 0;
        while i < n
            invariant
                old(self).wf(),
                old(self)@.locals.dom().contains(local_id),
                link is Some ==> linked_local_id(old(self)@.locals, link->0) is None,
                self == old(self),
                n == self.locals@.len(),
                i <= n,
                forall|j: int| 0 <= j < i ==> #[trigger] self.locals@[j].id != local_id,
            decreases n - i,
        {
            if self.locals[i].id == local_id {
                proof {
                    lemma_lt_idx_unique(self.locals@, i as int, local_id);
                }
                let ghost s_old = self.locals@;
                let mut row = self.locals[i].clone();
                row.shared_task_id = link;
                self.locals.set(i, row);
                proof {
                    self.lemma_lt_set(s_old, i as int, local_id);
                    assert forall|a: int, b: int|
                        0 <= a < self.locals@.len() && 0 <= b < self.locals@.len()
                            && (#[trigger] self.locals@[a].shared_task_id) is Some
                            && self.locals@[a].shared_task_id == (
                        #[trigger] self.locals@[b].shared_task_id) implies a == b by {
                        if a != b {
                            let sid = self.locals@[a].shared_task_id->0;
                            if a != i && b != i {
                                assert(s_old[a].shared_task_id == s_old[b].shared_task_id);
                            } else {
                                let o: int = if a == i {
                                    b
                                } else {
                                    a
                                };
                                assert(self.locals@[o] == s_old[o]);
                                assert(link == Some(sid));
                                assert(self@.locals.dom().contains(s_old[o].id)) by {
                                    lemma_lt_idx_unique(self.locals@, o, s_old[o].id);
                                }
                                assert(lt_as_map(s_old).dom().contains(s_old[o].id)) by {
                                    lemma_lt_idx_unique(s_old, o, s_old[o].id);
                                }
                                assert(lt_as_map(s_old)[s_old[o].id].shared_task_id == Some(sid))
                                    by {
                                    lemma_lt_idx_unique(s_old, o, s_old[o].id);
                                }
                                assert(linked_local_id(lt_as_map(s_old), sid) is Some);
                                assert(false);
                            }
                        }
                    }
                    assert forall|j: int|
                        0 <= j < self.locals@.len() implies #[trigger] self.locals@[j].id
                        < self.next_local_id by {
                        if j != i {
                            assert(self.locals@[j] == s_old[j]);
                        } else {
                            assert(self.locals@[j].id == s_old[j].id);
                        }
                    }
                    assert(self@ =~~= (ReplicaV {
                        locals: lt_as_map(s_old).insert(
                            local_id,
                            LocalTaskV { shared_task_id: link, ..lt_as_map(s_old)[local_id] },
                        ),
                        ..old(self)@
                    }));
                }
                return ;
            }
            i = i + 1;
        }
        proof {
            assert(!lt_contain(self.locals@, local_id));
            assert(false);
        }
    }

    /// Index of the mirrored shared task with the given id, if any.
    fn find_shared_index(&self, task_id: u128) -> (r: Option<usize>)
        requires
            self.wf(),
        ensures
            match r {
                Some(i) => i < self.shared@.len() && self.shared@[i as int].id == task_id
                    && self@.shared.dom().contains(task_id) && rt_idx(self.shared@, task_id)
                    == i as int,
                None => !self@.shared.dom().contains(task_id),
            },
    {
        let n = self.shared.len();
        let mut i: usize = 0;
        while i < n
            invariant
                self.wf(),
                n == self.shared@.len(),
                i <= n,
                forall|j: int| 0 <= j < i ==> #[trigger] self.shared@[j].id != task_id,
            decreases n - i,
        {
            if self.shared[i].id == task_id {
                proof {
                    lemma_rt_idx_unique(self.shared@, i as int, task_id);
                }
                return Some(i);
            }
            i = i + 1;
        }
        proof {
            assert(!rt_contain(self.shared@, task_id));
        }
        None
    }

    /// Index of the local task linked to the given shared task, if any.
    fn find_local_link_index(&self, shared_task_id: u128) -> (r: Option<usize>)
        requires
            self.wf(),
        ensures
            match r {
                Some(i) => i < self.locals@.len() && self.locals@[i as int].shared_task_id
                    == Some(shared_task_id) && linked_local_id(self@.locals, shared_task_id)
                    == Some(self.locals@[i as int].id),
                None => linked_local_id(self@.locals, shared_task_id) is None,
            },
    {
        let n = self.locals.len();
        let mut i: usize = 0;
        while i < n
            invariant
                self.wf(),
                n == self.locals@.len(),
                i <= n,
                forall|j: int|
                    0 <= j < i ==> #[trigger] self.locals@[j].shared_task_id != Some(
                        shared_task_id,
                    ),
            decreases n - i,
        {
            let is_link = match self.locals[i].shared_task_id {
                Some(s) => s == shared_task_id,
                None => false,
            };
            if is_link {
                proof {
                    self.lemma_linked_local_at(i as int, shared_task_id);
                }
                return Some(i);
            }
            i = i + 1;
        }
        proof {
            if linked_local_id(self@.locals, shared_task_id) is Some {
                let k = choose|k: u128|
                    #[trigger] self@.locals.dom().contains(k) && self@.locals[k].shared_task_id
                        == Some(shared_task_id);
                assert(lt_contain(self.locals@, k));
                let j = lt_idx(self.locals@, k);
                assert(self.locals@[j]@ == self@.locals[k]);
                assert(false);
            }
        }
        None
    }

    /// A row that carries a link witnesses `linked_local_id` for its target.
    proof fn lemma_linked_local_at(&self, i: int, sid: u128)
        requires
            self.wf(),
            0 <= i < self.locals@.len(),
            self.locals@[i].shared_task_id == Some(sid),
        ensures
            linked_local_id(self@.locals, sid) == Some(self.locals@[i].id),
    {
        let id = self.locals@[i].id;
        lemma_lt_idx_unique(self.locals@, i, id);
        assert(self@.locals.dom().contains(id) && self@.locals[id].shared_task_id == Some(sid));
        let k = choose|k: u128|
            #[trigger] self@.locals.dom().contains(k) && self@.locals[k].shared_task_id == Some(
                sid,
            );
        assert(lt_contain(self.locals@, k));
        let j = lt_idx(self.locals@, k);
        assert(self.locals@[j]@ == self@.locals[k]);
        assert(self.locals@[j].shared_task_id == Some(sid));
        assert(j == i);
    }

    /// After pushing a local row with a fresh id, the local map gains it.
    proof fn lemma_lt_push(&self, s_old: Seq<LocalTask>, new_id: u128)
        requires
            s_old.len() + 1 == self.locals@.len(),
            forall|j: int| 0 <= j < s_old.len() ==> self.locals@[j] == s_old[j],
            self.locals@.last().id == new_id,
            lt_ids_unique(s_old),
            !lt_contain(s_old, new_id),
        ensures
            lt_ids_unique(self.locals@),
            lt_as_map(self.locals@) == lt_as_map(s_old).insert(new_id, self.locals@.last()@),
    {
        let s_new = self.locals@;
        let n = s_old.len() as int;
        assert forall|i: int, j: int|
            0 <= i < s_new.len() && 0 <= j < s_new.len() && #[trigger] s_new[i].id
                == #[trigger] s_new[j].id implies i == j by {
            if i < n && j < n {
                assert(s_old[i].id == s_old[j].id);
            } else if i < n && j == n {
                assert(s_old[i].id == new_id);
                assert(lt_contain(s_old, new_id));
            } else if i == n && j < n {
                assert(s_old[j].id == new_id);
                assert(lt_contain(s_old, new_id));
            }
        }
        assert forall|k: u128| #[trigger]
            lt_contain(s_new, k) implies (lt_contain(s_old, k) || k == new_id) by {
            let i = choose|i: int| 0 <= i < s_new.len() && #[trigger] s_new[i].id == k;
            if i < n {
                assert(s_old[i].id == k);
            }
        }
        assert forall|k: u128| lt_contain(s_old, k) implies #[trigger] lt_contain(s_new, k) by {
            let i = choose|i: int| 0 <= i < s_old.len() && #[trigger] s_old[i].id == k;
            assert(s_new[i].id == k);
        }
        assert(lt_contain(s_new, new_id));
        assert forall|k: u128| lt_contain(s_old, k) implies lt_as_map(s_new)[k] == lt_as_map(
            s_old,
        )[k] by {
            let i = lt_idx(s_old, k);
            assert(0 <= i < s_old.len() && s_old[i].id == k);
            assert(s_new[i].id == k);
            lemma_lt_idx_unique(s_new, i, k);
        }
        assert(lt_as_map(s_new)[new_id] == s_new.last()@) by {
            lemma_lt_idx_unique(s_new, n, new_id);
        }
        assert(lt_as_map(s_new) =~= lt_as_map(s_old).insert(new_id, s_new.last()@));
    }

    /// After replacing the local row at the unique index of `id` by a row
    /// with the same id, the local map has that entry set.
    proof fn lemma_lt_set(&self, s_old: Seq<LocalTask>, idx: int, id: u128)
        requires
            s_old.len() == self.locals@.len(),
            0 <= idx < s_old.len(),
            s_old[idx].id == id,
            self.locals@[idx].id == id,
            forall|j: int| 0 <= j < s_old.len() && j != idx ==> self.locals@[j] == s_old[j],
            lt_ids_unique(s_old),
        ensures
            lt_ids_unique(self.locals@),
            lt_as_map(self.locals@) == lt_as_map(s_old).insert(id, self.locals@[idx]@),
    {
        let s_new = self.locals@;
        assert forall|i: int, j: int|
            0 <= i < s_new.len() && 0 <= j < s_new.len() && #[trigger] s_new[i].id
                == #[trigger] s_new[j].id implies i == j by {
            assert(s_old[i].id == s_old[j].id);
        }
        assert forall|k: u128| #[trigger] lt_contain(s_new, k) == lt_contain(s_old, k) by {
            if lt_contain(s_new, k) {
                let i = choose|i: int| 0 <= i < s_new.len() && #[trigger] s_new[i].id == k;
                assert(s_old[i].id == k);
                assert(lt_contain(s_old, k));
            }
            if lt_contain(s_old, k) {
                let i = choose|i: int| 0 <= i < s_old.len() && #[trigger] s_old[i].id == k;
                assert(s_new[i].id == k);
                assert(lt_contain(s_new, k));
            }
        }
        assert forall|k: u128| lt_contain(s_old, k) && k != id implies lt_as_map(s_new)[k]
            == lt_as_map(s_old)[k] by {
            let i = lt_idx(s_old, k);
            assert(0 <= i < s_old.len() && s_old[i].id == k);
            assert(i != idx);
            assert(s_new[i].id == k);
            lemma_lt_idx_unique(s_new, i, k);
        }
        assert(lt_as_map(s_new)[id] == s_new[idx]@) by {
            lemma_lt_idx_unique(s_new, idx, id);
        }
        assert(lt_as_map(s_new) =~= lt_as_map(s_old).insert(id, s_new[idx]@));
    }

    /// After pushing a replica row with a fresh id, the shared map gains it.
    proof fn lemma_rt_push(&self, s_old: Seq<ReplicaTask>, new_id: u128)
        requires
            s_old.len() + 1 == self.shared@.len(),
            forall|j: int| 0 <= j < s_old.len() ==> self.shared@[j] == s_old[j],
            self.shared@.last().id == new_id,
            rt_ids_unique(s_old),
            !rt_contain(s_old, new_id),
        ensures
            rt_ids_unique(self.shared@),
            rt_as_map(self.shared@) == rt_as_map(s_old).insert(new_id, self.shared@.last()@),
    {
        let s_new = self.shared@;
        let n = s_old.len() as int;
        assert forall|i: int, j: int|
            0 <= i < s_new.len() && 0 <= j < s_new.len() && #[trigger] s_new[i].id
                == #[trigger] s_new[j].id implies i == j by {
            if i < n && j < n {
                assert(s_old[i].id == s_old[j].id);
            } else if i < n && j == n {
                assert(s_old[i].id == new_id);
                assert(rt_contain(s_old, new_id));
            } else if i == n && j < n {
                assert(s_old[j].id == new_id);
                assert(rt_contain(s_old, new_id));
            }
        }
        assert forall|k: u128| #[trigger]
            rt_contain(s_new, k) implies (rt_contain(s_old, k) || k == new_id) by {
            let i = choose|i: int| 0 <= i < s_new.len() && #[trigger] s_new[i].id == k;
            if i < n {
                assert(s_old[i].id == k);
            }
        }
        assert forall|k: u128| rt_contain(s_old, k) implies #[trigger] rt_contain(s_new, k) by {
            let i = choose|i: int| 0 <= i < s_old.len() && #[trigger] s_old[i].id == k;
            assert(s_new[i].id == k);
        }
        assert(rt_contain(s_new, new_id));
        assert forall|k: u128| rt_contain(s_old, k) implies rt_as_map(s_new)[k] == rt_as_map(
            s_old,
        )[k] by {
            let i = rt_idx(s_old, k);
            assert(0 <= i < s_old.len() && s_old[i].id == k);
            assert(s_new[i].id == k);
            lemma_rt_idx_unique(s_new, i, k);
        }
        assert(rt_as_map(s_new)[new_id] == s_new.last()@) by {
            lemma_rt_idx_unique(s_new, n, new_id);
        }
        assert(rt_as_map(s_new) =~= rt_as_map(s_old).insert(new_id, s_new.last()@));
    }

    /// After replacing the replica row at the unique index of `id` by a row
    /// with the same id, the shared map has that entry set.
    proof fn lemma_rt_set(&self, s_old: Seq<ReplicaTask>, idx: int, id: u128)
        requires
            s_old.len() == self.shared@.len(),
            0 <= idx < s_old.len(),
            s_old[idx].id == id,
            self.shared@[idx].id == id,
            forall|j: int| 0 <= j < s_old.len() && j != idx ==> self.shared@[j] == s_old[j],
            rt_ids_unique(s_old),
        ensures
            rt_ids_unique(self.shared@),
            rt_as_map(self.shared@) == rt_as_map(s_old).insert(id, self.shared@[idx]@),
    {
        let s_new = self.shared@;
        assert forall|i: int, j: int|
            0 <= i < s_new.len() && 0 <= j < s_new.len() && #[trigger] s_new[i].id
                == #[trigger] s_new[j].id implies i == j by {
            assert(s_old[i].id == s_old[j].id);
        }
        assert forall|k: u128| #[trigger] rt_contain(s_new, k) == rt_contain(s_old, k) by {
            if rt_contain(s_new, k) {
                let i = choose|i: int| 0 <= i < s_new.len() && #[trigger] s_new[i].id == k;
                assert(s_old[i].id == k);
                assert(rt_contain(s_old, k));
            }
            if rt_contain(s_old, k) {
                let i = choose|i: int| 0 <= i < s_old.len() && #[trigger] s_old[i].id == k;
                assert(s_new[i].id == k);
                assert(rt_contain(s_new, k));
            }
        }
        assert forall|k: u128| rt_contain(s_old, k) && k != id implies rt_as_map(s_new)[k]
            == rt_as_map(s_old)[k] by {
            let i = rt_idx(s_old, k);
            assert(0 <= i < s_old.len() && s_old[i].id == k);
            assert(i != idx);
            assert(s_new[i].id == k);
            lemma_rt_idx_unique(s_new, i, k);
        }
        assert(rt_as_map(s_new)[id] == s_new[idx]@) by {
            lemma_rt_idx_unique(s_new, idx, id);
        }
        assert(rt_as_map(s_new) =~= rt_as_map(s_old).insert(id, s_new[idx]@));
    }

    /// After removing the unique replica row of `id`, the shared map loses
    /// exactly that entry.
    proof fn lemma_rt_remove(&self, s_old: Seq<ReplicaTask>, idx: int, id: u128)
        requires
            self.shared@ == s_old.remove(idx),
            0 <= idx < s_old.len(),
            s_old[idx].id == id,
            rt_ids_unique(s_old),
        ensures
            rt_ids_unique(self.shared@),
            rt_as_map(self.shared@) == rt_as_map(s_old).remove(id),
    {
        let s_new = self.shared@;
        assert(s_new.len() == s_old.len() - 1);
        assert forall|j: int| 0 <= j < s_new.len() implies #[trigger] s_new[j] == (if j < idx {
            s_old[j]
        } else {
            s_old[j + 1]
        }) by {}
        assert forall|i: int, j: int|
            0 <= i < s_new.len() && 0 <= j < s_new.len() && #[trigger] s_new[i].id
                == #[trigger] s_new[j].id implies i == j by {
            let oi: int = if i < idx {
                i
            } else {
                i + 1
            };
            let oj: int = if j < idx {
                j
            } else {
                j + 1
            };
            assert(s_old[oi].id == s_old[oj].id);
        }
        assert forall|k: u128| #[trigger]
            rt_contain(s_new, k) == (rt_contain(s_old, k) && k != id) by {
            if rt_contain(s_new, k) {
                let i = choose|i: int| 0 <= i < s_new.len() && #[trigger] s_new[i].id == k;
                let oi: int = if i < idx {
                    i
                } else {
                    i + 1
                };
                assert(s_old[oi].id == k);
                assert(rt_contain(s_old, k));
                assert(oi != idx);
                if k == id {
                    assert(s_old[oi].id == s_old[idx].id);
                    assert(false);
                }
            }
            if rt_contain(s_old, k) && k != id {
                let i = choose|i: int| 0 <= i < s_old.len() && #[trigger] s_old[i].id == k;
                assert(i != idx);
                if i < idx {
                    assert(s_new[i].id == k);
                } else {
                    assert(s_new[i - 1].id == k);
                }
                assert(rt_contain(s_new, k));
            }
        }
        assert forall|k: u128| rt_contain(s_new, k) implies rt_as_map(s_new)[k] == rt_as_map(
            s_old,
        )[k] by {
            let i = rt_idx(s_old, k);
            assert(0 <= i < s_old.len() && s_old[i].id == k);
            assert(i != idx);
            let ni: int = if i < idx {
                i
            } else {
                i - 1
            };
            assert(s_new[ni].id == k);
            lemma_rt_idx_unique(s_new, ni, k);
        }
        assert(rt_as_map(s_new) =~= rt_as_map(s_old).remove(id));
    }

    /// After pushing a cursor row for a fresh project, the cursor map gains it.
    proof fn lemma_cur_push(&self, s_old: Seq<CursorRow>, new_id: u128)
        requires
            s_old.len() + 1 == self.cursors@.len(),
            forall|j: int| 0 <= j < s_old.len() ==> self.cursors@[j] == s_old[j],
            self.cursors@.last().project_id == new_id,
            cur_ids_unique(s_old),
            !cur_contain(s_old, new_id),
        ensures
            cur_ids_unique(self.cursors@),
            cur_as_map(self.cursors@) == cur_as_map(s_old).insert(
                new_id,
                self.cursors@.last().last_seq,
            ),
    {
        let s_new = self.cursors@;
        let n = s_old.len() as int;
        assert forall|i: int, j: int|
            0 <= i < s_new.len() && 0 <= j < s_new.len() && #[trigger] s_new[i].project_id
                == #[trigger] s_new[j].project_id implies i == j by {
            if i < n && j < n {
                assert(s_old[i].project_id == s_old[j].project_id);
            } else if i < n && j == n {
                assert(s_old[i].project_id == new_id);
                assert(cur_contain(s_old, new_id));
            } else if i == n && j < n {
                assert(s_old[j].project_id == new_id);
                assert(cur_contain(s_old, new_id));
            }
        }
        assert forall|k: u128| #[trigger]
            cur_contain(s_new, k) implies (cur_contain(s_old, k) || k == new_id) by {
            let i = choose|i: int| 0 <= i < s_new.len() && #[trigger] s_new[i].project_id == k;
            if i < n {
                assert(s_old[i].project_id == k);
            }
        }
        assert forall|k: u128| cur_contain(s_old, k) implies #[trigger] cur_contain(
            s_new,
            k,
        ) by {
            let i = choose|i: int| 0 <= i < s_old.len() && #[trigger] s_old[i].project_id == k;
            assert(s_new[i].project_id == k);
        }
        assert(cur_contain(s_new, new_id));
        assert forall|k: u128| cur_contain(s_old, k) implies cur_as_map(s_new)[k] == cur_as_map(
            s_old,
        )[k] by {
            let i = cur_idx(s_old, k);
            assert(0 <= i < s_old.len() && s_old[i].project_id == k);
            assert(s_new[i].project_id == k);
            lemma_cur_idx_unique(s_new, i, k);
        }
        assert(cur_as_map(s_new)[new_id] == s_new.last().last_seq) by {
            lemma_cur_idx_unique(s_new, n, new_id);
        }
        assert(cur_as_map(s_new) =~= cur_as_map(s_old).insert(new_id, s_new.last().last_seq));
    }

    /// After replacing the cursor row at the unique index of a project, the
    /// cursor map has that entry set.
    proof fn lemma_cur_set(&self, s_old: Seq<CursorRow>, idx: int, id: u128)
        requires
            s_old.len() == self.cursors@.len(),
            0 <= idx < s_old.len(),
            s_old[idx].project_id == id,
            self.cursors@[idx].project_id == id,
            forall|j: int| 0 <= j < s_old.len() && j != idx ==> self.cursors@[j] == s_old[j],
            cur_ids_unique(s_old),
        ensures
            cur_ids_unique(self.cursors@),
            cur_as_map(self.cursors@) == cur_as_map(s_old).insert(
                id,
                self.cursors@[idx].last_seq,
            ),
    {
        let s_new = self.cursors@;
        assert forall|i: int, j: int|
            0 <= i < s_new.len() && 0 <= j < s_new.len() && #[trigger] s_new[i].project_id
                == #[trigger] s_new[j].project_id implies i == j by {
            assert(s_old[i].project_id == s_old[j].project_id);
        }
        assert forall|k: u128| #[trigger] cur_contain(s_new, k) == cur_contain(s_old, k) by {
            if cur_contain(s_new, k) {
                let i = choose|i: int| 0 <= i < s_new.len() && #[trigger] s_new[i].project_id == k;
                assert(s_old[i].project_id == k);
                assert(cur_contain(s_old, k));
            }
            if cur_contain(s_old, k) {
                let i = choose|i: int| 0 <= i < s_old.len() && #[trigger] s_old[i].project_id == k;
                assert(s_new[i].project_id == k);
                assert(cur_contain(s_new, k));
            }
        }
        assert forall|k: u128| cur_contain(s_old, k) && k != id implies cur_as_map(s_new)[k]
            == cur_as_map(s_old)[k] by {
            let i = cur_idx(s_old, k);
            assert(0 <= i < s_old.len() && s_old[i].project_id == k);
            assert(i != idx);
            assert(s_new[i].project_id == k);
            lemma_cur_idx_unique(s_new, i, k);
        }
        assert(cur_as_map(s_new)[id] == s_new[idx].last_seq) by {
            lemma_cur_idx_unique(s_new, idx, id);
        }
        assert(cur_as_map(s_new) =~= cur_as_map(s_old).insert(id, s_new[idx].last_seq));
    }

    /// The first local project linked to the given remote project, if any.
    fn project_for(&self, rpid: u128) -> (r: Option<u128>)
        ensures
            r == first_project_for(self@.projects, rpid),
    {
        let n = self.projects.len();
        let mut i: usize = 0;
        proof {
            assert(self.projects@.skip(0) =~= self.projects@);
        }
        while i < n
            invariant
                n == self.projects@.len(),
                i <= n,
                first_project_for(self.projects@, rpid) == first_project_for(
                    self.projects@.skip(i as int),
                    rpid,
                ),
            decreases n - i,
        {
            let is_match = match self.projects[i].remote_project_id {
                Some(r0) => r0 == rpid,
                None => false,
            };
            proof {
                assert(self.projects@.skip(i as int)[0] == self.projects@[i as int]);
                assert(self.projects@.skip(i as int).drop_first() =~= self.projects@.skip(
                    i as int + 1,
                ));
            }
            if is_match {
                return Some(self.projects[i].id);
            }
            i = i + 1;
        }
        proof {
            assert(self.projects@.skip(n as int) =~= Seq::<Project>::empty());
        }
        None
    }

    /// Project resolution for an incoming task, preferring linkage already
    /// recorded for the task itself.
    fn resolve_project(&self, task_id: u128, rpid: u128) -> (r: Option<u128>)
        requires
            self.wf(),
        ensures
            r == resolve_project_v(self@, task_id, rpid),
    {
        match self.find_shared_index(task_id) {
            Some(i) => {
                proof {
                    lemma_rt_idx_unique(self.shared@, i as int, task_id);
                }
                match self.project_for(self.shared[i].remote_project_id) {
                    Some(p) => Some(p),
                    None => self.project_for(rpid),
                }
            },
            None => self.project_for(rpid),
        }
    }

    /// Inserts or wholesale-replaces the mirror row for `row.id`.
    pub fn put_shared_task(&mut self, row: ReplicaTask)
        requires
            old(self).wf(),
        ensures
            final(self).wf(),
            final(self)@ == (ReplicaV {
                shared: old(self)@.shared.insert(row.id, row@),
                ..old(self)@
            }),
    {
        let ghost s_old = self.shared@;
        let ghost rid = row.id;
        let ghost rv = row@;
        match self.find_shared_index(row.id) {
            Some(i) => {
                self.shared.set(i, row);
                proof {
                    self.lemma_rt_set(s_old, i as int, rid);
                }
            },
            None => {
                proof {
                    assert(!rt_contain(s_old, rid));
                }
                self.shared.push(row);
                proof {
                    self.lemma_rt_push(s_old, rid);
                }
            },
        }
        proof {
            assert(self@ =~~= (ReplicaV {
                shared: rt_as_map(s_old).insert(rid, rv),
                ..old(self)@
            }));
        }
    }

    /// Removes the mirror row of `sid`, if present.
    fn remove_shared(&mut self, sid: u128)
        requires
            old(self).wf(),
        ensures
            final(self).wf(),
            final(self)@ == (ReplicaV { shared: old(self)@.shared.remove(sid), ..old(self)@ }),
    {
        let ghost s_old = self.shared@;
        match self.find_shared_index(sid) {
            Some(i) => {
                self.shared.remove(i);
                proof {
                    self.lemma_rt_remove(s_old, i as int, sid);
                    assert(self@ =~~= (ReplicaV {
                        shared: rt_as_map(s_old).remove(sid),
                        ..old(self)@
                    }));
                }
            },
            None => {
                proof {
                    assert(rt_as_map(s_old).remove(sid) =~= rt_as_map(s_old));
                    assert(self@ =~~= (ReplicaV {
                        shared: rt_as_map(s_old).remove(sid),
                        ..old(self)@
                    }));
                }
            },
        }
    }

    /// Clears the link of the local task referencing `sid`, if one exists.
    fn unlink_local(&mut self, sid: u128)
        requires
            old(self).wf(),
        ensures
            final(self).wf(),
            final(self)@ == (ReplicaV {
                locals: unlink_v(old(self)@.locals, sid),
                ..old(self)@
            }),
    {
        let ghost s_old = self.locals@;
        match self.find_local_link_index(sid) {
            Some(i) => {
                let mut row = self.locals[i].clone();
                row.shared_task_id = None;
                self.locals.set(i, row);
                proof {
                    let id = s_old[i as int].id;
                    self.lemma_lt_set(s_old, i as int, id);
                    assert forall|a: int, b: int|
                        0 <= a < self.locals@.len() && 0 <= b < self.locals@.len()
                            && (#[trigger] self.locals@[a].shared_task_id) is Some
                            && self.locals@[a].shared_task_id == (
                        #[trigger] self.locals@[b].shared_task_id) implies a == b by {
                        if a != i as int && b != i as int {
                            assert(s_old[a].shared_task_id == s_old[b].shared_task_id);
                        }
                    }
                    assert forall|j: int|
                        0 <= j < self.locals@.len() implies #[trigger] self.locals@[j].id
                        < self.next_local_id by {
                        if j != i as int {
                            assert(self.locals@[j] == s_old[j]);
                        } else {
                            assert(self.locals@[j].id == s_old[j].id);
                        }
                    }
                    // only the one linked row changes, exactly as `unlink_v` says
                    assert forall|k: u128|
                        #[trigger] lt_contain(s_old, k) && k != id implies lt_as_map(
                        s_old,
                    )[k].shared_task_id != Some(sid) by {
                        let j = lt_idx(s_old, k);
                        assert(0 <= j < s_old.len() && s_old[j].id == k);
                        if s_old[j].shared_task_id == Some(sid) {
                            assert(s_old[j].shared_task_id == s_old[i as int].shared_task_id);
                            assert(j == i as int);
                        }
                    }
                    assert(lt_as_map(self.locals@) =~= unlink_v(lt_as_map(s_old), sid)) by {
                        assert forall|k: u128| lt_contain(s_old, k) implies lt_as_map(
                            self.locals@,
                        )[k] == unlink_v(lt_as_map(s_old), sid)[k] by {
                            lemma_lt_idx_unique(s_old, i as int, id);
                            if k != id {
                                assert(lt_as_map(self.locals@)[k] == lt_as_map(s_old)[k]);
                            } else {
                                assert(lt_as_map(s_old)[id].shared_task_id == Some(sid));
                                assert(lt_as_map(self.locals@)[id] == self.locals@[i as int]@);
                            }
                        }
                    }
                    assert(self@ =~~= (ReplicaV {
                        locals: unlink_v(lt_as_map(s_old), sid),
                        ..old(self)@
                    }));
                }
            },
            None => {
                proof {
                    assert forall|k: u128| #[trigger] lt_contain(s_old, k) implies lt_as_map(
                        s_old,
                    )[k].shared_task_id != Some(sid) by {
                        let j = lt_idx(s_old, k);
                        assert(0 <= j < s_old.len() && s_old[j].id == k);
                        if s_old[j].shared_task_id == Some(sid) {
                            self.lemma_linked_local_at(j, sid);
                        }
                    }
                    assert(unlink_v(lt_as_map(s_old), sid) =~= lt_as_map(s_old));
                    assert(self@ =~~= (ReplicaV {
                        locals: unlink_v(lt_as_map(s_old), sid),
                        ..old(self)@
                    }));
                }
            },
        }
    }

    /// Local reconciliation after a shared-task upsert, per `sync_local_v`.
    fn sync_local(&mut self, row: &ReplicaTask, project: Option<u128>)
        requires
            old(self).wf(),
            old(self).headroom(),
        ensures
            final(self).wf(),
            ({
                let sync = sync_local_v(
                    old(self)@.locals,
                    old(self)@.next_local_id,
                    old(self)@.current_user_id,
                    row@.creator_user_id,
                    project,
                    row@,
                );
                final(self)@ == (ReplicaV {
                    locals: sync.0,
                    next_local_id: sync.1,
                    ..old(self)@
                })
            }),
    {
        let ghost s_old = self.locals@;
        match self.find_local_link_index(row.id) {
            Some(i) => {
                let mut lt = self.locals[i].clone();
                match project {
                    Some(p) => {
                        lt.project_id = p;
                    },
                    None => {},
                }
                lt.title = row.title.clone();
                lt.description = clone_opt_string(&row.description);
                lt.status = row.status;
                self.locals.set(i, lt);
                proof {
                    let id = s_old[i as int].id;
                    lemma_lt_idx_unique(s_old, i as int, id);
                    self.lemma_lt_set(s_old, i as int, id);
                    assert forall|a: int, b: int|
                        0 <= a < self.locals@.len() && 0 <= b < self.locals@.len()
                            && (#[trigger] self.locals@[a].shared_task_id) is Some
                            && self.locals@[a].shared_task_id == (
                        #[trigger] self.locals@[b].shared_task_id) implies a == b by {
                        if a != i as int && b != i as int {
                            assert(s_old[a].shared_task_id == s_old[b].shared_task_id);
                        } else {
                            assert(self.locals@[i as int].shared_task_id == s_old[
                                i as int].shared_task_id);
                            assert(s_old[a].shared_task_id == s_old[b].shared_task_id);
                        }
                    }
                    assert forall|j: int|
                        0 <= j < self.locals@.len() implies #[trigger] self.locals@[j].id
                        < self.next_local_id by {
                        if j != i as int {
                            assert(self.locals@[j] == s_old[j]);
                        } else {
                            assert(self.locals@[j].id == s_old[j].id);
                        }
                    }
                    assert(self@ =~~= (ReplicaV {
                        locals: lt_as_map(s_old).insert(id, self.locals@[i as int]@),
                        ..old(self)@
                    }));
                }
            },
            None => {
                let create = match (row.assignee_user_id, self.current_user_id) {
                    (Some(a), Some(c)) => a == c,
                    _ => false,
                } && !(match (row.creator_user_id, self.current_user_id) {
                    (Some(cr), Some(c)) => cr == c,
                    _ => false,
                });
                if create {
                    match project {
                        Some(p) => {
                            let id = self.next_local_id;
                            let lt = LocalTask {
                                id,
                                project_id: p,
                                title: row.title.clone(),
                                description: clone_opt_string(&row.description),
                                status: row.status,
                                shared_task_id: Some(row.id),
                            };
                            proof {
                                assert(!lt_contain(s_old, id));
                            }
                            self.locals.push(lt);
                            self.next_local_id = self.next_local_id + 1;
                            proof {
                                self.lemma_lt_push(s_old, id);
                                assert forall|a: int, b: int|
                                    0 <= a < self.locals@.len() && 0 <= b < self.locals@.len()
                                        && (#[trigger] self.locals@[a].shared_task_id) is Some
                                        && self.locals@[a].shared_task_id == (
                                    #[trigger] self.locals@[b].shared_task_id) implies a == b by {
                                    let n = s_old.len() as int;
                                    if a < n && b < n {
                                        assert(s_old[a].shared_task_id
                                            == s_old[b].shared_task_id);
                                    } else if a < n || b < n {
                                        let o: int = if a < n {
                                            a
                                        } else {
                                            b
                                        };
                                        assert(s_old[o].shared_task_id == Some(row.id));
                                        let oid = s_old[o].id;
                                        lemma_lt_idx_unique(s_old, o, oid);
                                        assert(lt_as_map(s_old).dom().contains(oid)
                                            && lt_as_map(s_old)[oid].shared_task_id == Some(
                                            row.id,
                                        ));
                                    }
                                }
                                assert forall|j: int|
                                    0 <= j < self.locals@.len() implies
                                    #[trigger] self.locals@[j].id < self.next_local_id by {
                                    if j < s_old.len() {
                                        assert(self.locals@[j] == s_old[j]);
                                    }
                                }
                                assert(self@ =~~= (ReplicaV {
                                    locals: lt_as_map(s_old).insert(id, self.locals@.last()@),
                                    next_local_id: (old(self)@.next_local_id + 1) as u128,
                                    ..old(self)@
                                }));
                            }
                        },
                        None => {},
                    }
                }
            },
        }
    }

    /// Folds the scope's cursor forward; it never regresses.
    fn bump_cursor_row(&mut self, project_id: u128, seq: i64)
        requires
            old(self).wf(),
        ensures
            final(self).wf(),
            final(self)@ == (ReplicaV {
                cursors: bump_cursor_v(old(self)@.cursors, project_id, seq),
                ..old(self)@
            }),
    {
        let n = self.cursors.len();
        let mut i: usize = 0;
        while i < n
            invariant
                old(self).wf(),
                self == old(self),
                n == self.cursors@.len(),
                i <= n,
                forall|j: int| 0 <= j < i ==> #[trigger] self.cursors@[j].project_id != project_id,
            decreases n - i,
        {
            if self.cursors[i].project_id == project_id {
                let ghost s_old = self.cursors@;
                proof {
                    lemma_cur_idx_unique(self.cursors@, i as int, project_id);
                }
                if self.cursors[i].last_seq < seq {
                    self.cursors.set(i, CursorRow { project_id, last_seq: seq });
                    proof {
                        self.lemma_cur_set(s_old, i as int, project_id);
                        assert(self@ =~~= (ReplicaV {
                            cursors: bump_cursor_v(cur_as_map(s_old), project_id, seq),
                            ..old(self)@
                        }));
                    }
                } else {
                    proof {
                        assert(self@ =~~= (ReplicaV {
                            cursors: bump_cursor_v(cur_as_map(s_old), project_id, seq),
                            ..old(self)@
                        }));
                    }
                }
                return ;
            }
            i = i + 1;
        }
        let ghost s_old = self.cursors@;
        proof {
            assert(!cur_contain(self.cursors@, project_id));
        }
        self.cursors.push(CursorRow { project_id, last_seq: seq });
        proof {
            self.lemma_cur_push(s_old, project_id);
            assert(self@ =~~= (ReplicaV {
                cursors: bump_cursor_v(cur_as_map(s_old), project_id, seq),
                ..old(self)@
            }));
        }
    }

    /// Applies one upsert event: unless the event is older than what the
    /// mirror row already reflects, the payload replaces the row wholesale
    /// and the local board is reconciled.
    fn upsert_row(&mut self, payload: &SharedTaskActivityPayload, seq: i64, event_project: u128)
        requires
            old(self).wf(),
            old(self).headroom(),
        ensures
            final(self).wf(),
            final(self)@ == upsert_task_v(old(self)@, payload@, seq, event_project),
    {
        let sid = payload.task.id;
        let stale = match self.find_shared_index(sid) {
            Some(i) => {
                proof {
                    lemma_rt_idx_unique(self.shared@, i as int, sid);
                }
                match self.shared[i].last_event_seq {
                    Some(l) => l > seq,
                    None => false,
                }
            },
            None => false,
        };
        if stale {
            return ;
        }
        let project = self.resolve_project(sid, event_project);
        let row = convert_remote_task(&payload.task, payload.user.as_ref(), Some(seq));
        let row_for_sync = row.clone();
        self.put_shared_task(row);
        self.sync_local(&row_for_sync, project);
        proof {
            assert(self@ =~~= upsert_task_v(old(self)@, payload@, seq, event_project));
        }
    }

    /// Removes the mirror row of a shared task and clears any referencing
    /// local link: the observing side of a deletion.
    pub fn remove_shared_task(&mut self, sid: u128)
        requires
            old(self).wf(),
        ensures
            final(self).wf(),
            final(self)@ == delete_task_v(old(self)@, sid),
    {
        self.remove_shared(sid);
        self.unlink_local(sid);
        proof {
            assert(self@ =~~= delete_task_v(old(self)@, sid));
        }
    }

    /// A well-formed replica's board, seen mathematically, links at most one
    /// local task to any given shared task, and every board key lies below
    /// the id generator.
    pub proof fn lemma_view_link_unique(&self)
        requires
            self.wf(),
        ensures
            locals_link_unique(self@.locals),
            locals_bounded(self@.locals, self@.next_local_id),
    {
        assert forall|k: u128| #[trigger] self@.locals.dom().contains(k) implies k
            < self@.next_local_id by {
            let i = lt_idx(self.locals@, k);
            assert(0 <= i < self.locals@.len() && self.locals@[i].id == k);
        }
        assert forall|k1: u128, k2: u128|
            self@.locals.dom().contains(k1) && self@.locals.dom().contains(k2)
                && (#[trigger] self@.locals[k1].shared_task_id) is Some
                && self@.locals[k1].shared_task_id == (
            #[trigger] self@.locals[k2].shared_task_id) implies k1 == k2 by {
            let i1 = lt_idx(self.locals@, k1);
            let i2 = lt_idx(self.locals@, k2);
            assert(0 <= i1 < self.locals@.len() && self.locals@[i1].id == k1);
            assert(0 <= i2 < self.locals@.len() && self.locals@[i2].id == k2);
            assert(self.locals@[i1].shared_task_id == self.locals@[i2].shared_task_id);
            assert(i1 == i2);
        }
    }

    /// Folds one activity event into the replica: an idempotent upsert or
    /// delete, after which the scope's cursor advances and never regresses.
    /// An event whose payload could not be decoded is skipped, as the
    /// stream continues with the next item.
    pub fn apply_event(&mut self, event: &ActivityEvent)
        requires
            old(self).wf(),
            old(self).headroom(),
        ensures
            final(self).wf(),
            final(self)@ == apply_event_v(old(self)@, event@),
    {
        match &event.payload {
            Some(payload) => {
                match event.kind {
                    ActivityKind::Deleted => self.remove_shared_task(payload.task.id),
                    ActivityKind::Upserted => self.upsert_row(payload, event.seq, event.project_id),
                }
            },
            None => {},
        }
        self.bump_cursor_row(event.project_id, event.seq);
        proof {
            assert(self@ =~~= apply_event_v(old(self)@, event@));
        }
    }

    /// Folds a whole bulk snapshot into the replica: local rows absent from
    /// the snapshot are retired, all returned rows are upserted wholesale,
    /// and `latest_seq` becomes the scope's cursor.  Bounded cost regardless
    /// of how deep the event backlog was.
    pub fn apply_snapshot(&mut self, project_id: u128, snap: &BulkSharedTasksResponse)
        requires
            old(self).wf(),
            old(self)@.next_local_id + snap.tasks@.len() < u128::MAX,
        ensures
            final(self).wf(),
            final(self)@ == apply_snapshot_v(
                old(self)@,
                project_id,
                payloads_view(snap.tasks@),
                snap.deleted_task_ids@,
                snap.latest_seq,
            ),
    {
        let ghost r0 = self@;
        let ghost tasks_v = payloads_view(snap.tasks@);
        let ghost stale_set = stale_ids(r0, project_id, tasks_v, snap.deleted_task_ids@);

        // gather the ids the snapshot retires
        let mut stale: Vec<u128> = Vec::new();
        let n_rows = self.shared.len();
        let mut i: usize = 0;
        while i < n_rows
            invariant
                self.wf(),
                self@ == r0,
                stale_set == stale_ids(r0, project_id, tasks_v, snap.deleted_task_ids@),
                tasks_v == payloads_view(snap.tasks@),
                n_rows == self.shared@.len(),
                i <= n_rows,
                forall|m: int| 0 <= m < stale@.len() ==> stale_set.contains(#[trigger] stale@[m]),
                forall|j: int|
                    0 <= j < i && (#[trigger] self.shared@[j].remote_project_id) == project_id
                        && !snap_has(tasks_v, self.shared@[j].id) ==> stale@.contains(
                        self.shared@[j].id,
                    ),
            decreases n_rows - i,
        {
            let row_id = self.shared[i].id;
            let row_project = self.shared[i].remote_project_id;
            if row_project == project_id && !snapshot_has_id(&snap.tasks, row_id) {
                proof {
                    lemma_rt_idx_unique(self.shared@, i as int, row_id);
                    assert(r0.shared.dom().contains(row_id));
                    assert(r0.shared[row_id].remote_project_id == project_id);
                    assert(stale_set.contains(row_id));
                }
                stale.push(row_id);
            }
            proof {
                broadcast use vstd::seq_lib::lemma_seq_contains_after_push;

            }
            i = i + 1;
        }
        let n_del = snap.deleted_task_ids.len();
        let mut j: usize = 0;
        while j < n_del
            invariant
                self.wf(),
                self@ == r0,
                stale_set == stale_ids(r0, project_id, tasks_v, snap.deleted_task_ids@),
                tasks_v == payloads_view(snap.tasks@),
                n_del == snap.deleted_task_ids@.len(),
                j <= n_del,
                forall|m: int| 0 <= m < stale@.len() ==> stale_set.contains(#[trigger] stale@[m]),
                forall|w: int|
                    0 <= w < j && !snap_has(tasks_v, #[trigger] snap.deleted_task_ids@[w])
                        ==> stale@.contains(snap.deleted_task_ids@[w]),
                forall|w: int|
                    0 <= w < self.shared@.len() && (
                    #[trigger] self.shared@[w].remote_project_id) == project_id && !snap_has(
                        tasks_v,
                        self.shared@[w].id,
                    ) ==> stale@.contains(self.shared@[w].id),
            decreases n_del - j,
        {
            let d = snap.deleted_task_ids[j];
            if !snapshot_has_id(&snap.tasks, d) {
                proof {
                    assert(snap.deleted_task_ids@.contains(d));
                    assert(stale_set.contains(d));
                }
                stale.push(d);
            }
            proof {
                broadcast use vstd::seq_lib::lemma_seq_contains_after_push;

            }
            j = j + 1;
        }
        proof {
            assert forall|k: u128| stale_set.contains(k) implies stale@.to_set().contains(
                k,
            ) by {
                assert(!snap_has(tasks_v, k));
                if r0.shared.dom().contains(k) && r0.shared[k].remote_project_id == project_id {
                    let w = rt_idx(self.shared@, k);
                    assert(0 <= w < self.shared@.len() && self.shared@[w].id == k);
                    assert(self.shared@[w]@ == r0.shared[k]);
                    assert(stale@.contains(k));
                } else {
                    assert(snap.deleted_task_ids@.contains(k));
                    let w = choose|w: int|
                        0 <= w < snap.deleted_task_ids@.len() && snap.deleted_task_ids@[w] == k;
                    assert(stale@.contains(k));
                }
            }
            assert forall|k: u128| stale@.to_set().contains(k) implies stale_set.contains(
                k,
            ) by {
                let m = choose|m: int| 0 <= m < stale@.len() && stale@[m] == k;
            }
            assert(stale@.to_set() =~= stale_set);
        }

        // retire them
        let n_stale = stale.len();
        let mut s: usize = 0;
        proof {
            broadcast use vstd::seq_lib::lemma_seq_empty_contains_nothing;

            assert(stale@.subrange(0, 0) =~= Seq::<u128>::empty());
            assert(stale@.subrange(0, 0).to_set() =~= Set::<u128>::empty());
            let es = stale@.subrange(0, 0).to_set();
            assert(remove_stale_v(r0, es).shared =~= r0.shared);
            assert(remove_stale_v(r0, es).locals =~= r0.locals);
            assert(self@ =~~= remove_stale_v(r0, es));
        }
        while s < n_stale
            invariant
                self.wf(),
                n_stale == stale@.len(),
                s <= n_stale,
                self@ == remove_stale_v(r0, stale@.subrange(0, s as int).to_set()),
            decreases n_stale - s,
        {
            let ghost pre = stale@.subrange(0, s as int).to_set();
            self.remove_shared_task(stale[s]);
            proof {
                let id = stale@[s as int];
                assert(stale@.subrange(0, s as int + 1) =~= stale@.subrange(0, s as int).push(
                    id,
                ));
                assert(stale@.subrange(0, s as int + 1).to_set() =~= pre.insert(id)) by {
                    broadcast use vstd::seq_lib::lemma_seq_contains_after_push;

                }
                assert(delete_task_v(remove_stale_v(r0, pre), id) =~~= remove_stale_v(
                    r0,
                    pre.insert(id),
                )) by {
                    assert(remove_stale_v(r0, pre).shared.remove(id) =~= remove_stale_v(
                        r0,
                        pre.insert(id),
                    ).shared);
                    assert(unlink_v(remove_stale_v(r0, pre).locals, id) =~= remove_stale_v(
                        r0,
                        pre.insert(id),
                    ).locals);
                }
            }
            s = s + 1;
        }
        proof {
            assert(stale@.subrange(0, n_stale as int) =~= stale@);
            assert(self@ == remove_stale_v(r0, stale_set));
        }
        let ghost r1 = remove_stale_v(r0, stale_set);

        // upsert every returned row, wholesale
        let n_tasks = snap.tasks.len();
        let mut t: usize = 0;
        proof {
            assert(payloads_view(snap.tasks@.subrange(0, 0)) =~= Seq::<
                SharedTaskActivityPayloadV,
            >::empty());
            assert(self@ =~~= snap_upserts_v(
                r1,
                payloads_view(snap.tasks@.subrange(0, 0)),
                snap.latest_seq,
                project_id,
            ));
        }
        while t < n_tasks
            invariant
                self.wf(),
                n_tasks == snap.tasks@.len(),
                t <= n_tasks,
                r1 == remove_stale_v(r0, stale_set),
                r1.next_local_id == r0.next_local_id,
                r0.next_local_id + snap.tasks@.len() < u128::MAX,
                self@ == snap_upserts_v(
                    r1,
                    payloads_view(snap.tasks@.subrange(0, t as int)),
                    snap.latest_seq,
                    project_id,
                ),
                self@.next_local_id <= r1.next_local_id + t,
            decreases n_tasks - t,
        {
            let ghost prefix = payloads_view(snap.tasks@.subrange(0, t as int));
            let payload = &snap.tasks[t];
            let project = self.resolve_project(payload.task.id, project_id);
            let row = convert_remote_task(&payload.task, payload.user.as_ref(), snap.latest_seq);
            let row_for_sync = row.clone();
            self.put_shared_task(row);
            self.sync_local(&row_for_sync, project);
            proof {
                let next = payloads_view(snap.tasks@.subrange(0, t as int + 1));
                assert(snap.tasks@.subrange(0, t as int + 1) =~= snap.tasks@.subrange(
                    0,
                    t as int,
                ).push(snap.tasks@[t as int]));
                assert(next =~= prefix.push(snap.tasks@[t as int]@));
                assert(next.drop_last() =~= prefix);
                assert(self@ =~~= snap_upsert_v(
                    snap_upserts_v(r1, prefix, snap.latest_seq, project_id),
                    snap.tasks@[t as int]@,
                    snap.latest_seq,
                    project_id,
                ));
            }
            t = t + 1;
        }
        proof {
            assert(snap.tasks@.subrange(0, n_tasks as int) =~= snap.tasks@);
        }

        // adopt the snapshot's marker as the new cursor
        match snap.latest_seq {
            Some(l) => {
                self.bump_cursor_row(project_id, l);
            },
            None => {},
        }
        proof {
            assert(self@ =~~= apply_snapshot_v(
                r0,
                project_id,
                tasks_v,
                snap.deleted_task_ids@,
                snap.latest_seq,
            ));
        }
    }
}

/// Whether the snapshot's task list carries a payload for the given id.
fn snapshot_has_id(tasks: &Vec<SharedTaskActivityPayload>, id: u128) -> (r: bool)
    ensures
        r == snap_has(payloads_view(tasks@), id),
{
    let n = tasks.len();
    let mut i: usize = 0;
    while i < n
        invariant
            n == tasks@.len(),
            i <= n,
            forall|j: int| 0 <= j < i ==> (#[trigger] payloads_view(tasks@)[j].task.id) != id,
        decreases n - i,
    {
        if tasks[i].task.id == id {
            proof {
                assert(payloads_view(tasks@)[i as int].task.id == id);
            }
            return true;
        }
        i = i + 1;
    }
    false
}

} // verus!
