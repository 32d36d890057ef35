//! The authoritative remote store of shared tasks, with its per-organization
//! activity log.
//!
//! Every accepted mutation increments the task's `version` by exactly one and
//! appends exactly one activity event in the same atomic step.  A mutation
//! that carries an `expected_version` different from the stored version is
//! rejected with `Conflict` and changes nothing.

use vstd::prelude::*;

use crate::model::{
    ActivityEvent, ActivityEventV, ActivityKind, BulkSharedTasksResponse, SharedTask,
    SharedTaskActivityPayload, SharedTaskActivityPayloadV, SharedTaskResponse, SharedTaskV,
    TaskStatus, UserData, UserDataV, opt_str_view, opt_user_view,
};

verus! {

/// Error taxonomy of the store, as surfaced by the task endpoints.
#[derive(Clone, Copy, PartialEq, Eq, Structural, Debug)]
pub enum SharedTaskError {
    NotFound,
    Conflict,
    Forbidden,
    PayloadTooLarge,
}

/// Fields of `POST /tasks` once the calling layer has resolved the acting user.
#[derive(Debug)]
pub struct CreateSharedTaskData {
    pub project_id: u128,
    pub title: String,
    pub description: Option<String>,
    pub creator_user_id: u128,
    pub assignee_user_id: Option<u128>,
}

/// Fields of `PATCH /tasks/{id}` once the calling layer has resolved the acting user.
#[derive(Debug)]
pub struct UpdateSharedTaskData {
    pub title: Option<String>,
    pub description: Option<String>,
    pub status: Option<TaskStatus>,
    pub version: Option<i64>,
    pub acting_user_id: u128,
}

/// Fields of `POST /tasks/{id}/assign`.
#[derive(Clone, Copy, Debug)]
pub struct AssignTaskData {
    pub new_assignee_user_id: Option<u128>,
    pub previous_assignee_user_id: Option<u128>,
    pub version: Option<i64>,
}

/// Fields of `DELETE /tasks/{id}`.
#[derive(Clone, Copy, Debug)]
pub struct DeleteTaskData {
    pub acting_user_id: u128,
    pub version: Option<i64>,
}

/// Whether a sequence of task rows has no repeated id.
pub open spec fn task_ids_unique(s: Seq<SharedTask>) -> bool {
    forall|i: int, j: int|
        0 <= i < s.len() && 0 <= j < s.len() && #[trigger] s[i].id == #[trigger] s[j].id ==> i == j
}

/// Whether some row of `s` has the id `k`.
pub open spec fn tasks_contain(s: Seq<SharedTask>, k: u128) -> bool {
    exists|i: int| 0 <= i < s.len() && #[trigger] s[i].id == k
}

/// An index of the row with id `k` (the index, when ids are unique).
pub open spec fn task_idx(s: Seq<SharedTask>, k: u128) -> int {
    choose|i: int| 0 <= i < s.len() && #[trigger] s[i].id == k
}

/// The rows of `s` as a map from id to mathematical task value.
pub open spec fn tasks_as_map(s: Seq<SharedTask>) -> Map<u128, SharedTaskV> {
    Map::new(|k: u128| tasks_contain(s, k), |k: u128| s[task_idx(s, k)]@)
}

/// With unique ids, any index holding id `k` is the index `task_idx` denotes.
pub proof fn lemma_task_idx_unique(s: Seq<SharedTask>, j: int, k: u128)
    requires
        task_ids_unique(s),
        0 <= j < s.len(),
        s[j].id == k,
    ensures
        tasks_contain(s, k),
        task_idx(s, k) == j,
{
    assert(tasks_contain(s, k));
    let i = task_idx(s, k);
    assert(0 <= i < s.len() && s[i].id == k);
}

/// Whether event sequence numbers increase strictly along the log.
pub open spec fn log_seqs_increasing(log: Seq<ActivityEvent>) -> bool {
    forall|i: int, j: int| 0 <= i < j < log.len() ==> #[trigger] log[i].seq < #[trigger] log[j].seq
}

/// Whether a sequence of user rows has no repeated id.
pub open spec fn user_ids_unique(s: Seq<UserData>) -> bool {
    forall|i: int, j: int|
        0 <= i < s.len() && 0 <= j < s.len() && #[trigger] s[i].id == #[trigger] s[j].id ==> i == j
}

/// Whether some user row of `s` has the id `k`.
pub open spec fn users_contain(s: Seq<UserData>, k: u128) -> bool {
    exists|i: int| 0 <= i < s.len() && #[trigger] s[i].id == k
}

/// An index of the user row with id `k`.
pub open spec fn user_idx(s: Seq<UserData>, k: u128) -> int {
    choose|i: int| 0 <= i < s.len() && #[trigger] s[i].id == k
}

/// The user rows of `s` as a map from id to mathematical value.
pub open spec fn users_as_map(s: Seq<UserData>) -> Map<u128, UserDataV> {
    Map::new(|k: u128| users_contain(s, k), |k: u128| s[user_idx(s, k)]@)
}

/// With unique ids, any index holding user id `k` is the denoted index.
pub proof fn lemma_user_idx_unique(s: Seq<UserData>, j: int, k: u128)
    requires
        user_ids_unique(s),
        0 <= j < s.len(),
        s[j].id == k,
    ensures
        users_contain(s, k),
        user_idx(s, k) == j,
{
    assert(users_contain(s, k));
    let i = user_idx(s, k);
    assert(0 <= i < s.len() && s[i].id == k);
}

/// The resolved user summary an event payload carries for an assignee.
pub open spec fn summary_of(users: Map<u128, UserDataV>, assignee: Option<u128>) -> Option<
    UserDataV,
> {
    match assignee {
        Some(id) => if users.dom().contains(id) {
            Some(users[id])
        } else {
            None
        },
        None => None,
    }
}

/// Whether a stored version passes an optional caller-echoed version check.
pub open spec fn version_matches(stored: i64, expected: Option<i64>) -> bool {
    match expected {
        Some(v) => stored == v,
        None => true,
    }
}

/// The task value a `PATCH` leaves behind: absent fields keep their stored
/// value, the version rises by exactly one, `updated_at` is stamped.
pub open spec fn apply_update_v(
    t: SharedTaskV,
    title: Option<Seq<char>>,
    description: Option<Seq<char>>,
    status: Option<TaskStatus>,
    now: i64,
) -> SharedTaskV {
    SharedTaskV {
        title: match title {
            Some(s) => s,
            None => t.title,
        },
        description: match description {
            Some(d) => Some(d),
            None => t.description,
        },
        status: match status {
            Some(s) => s,
            None => t.status,
        },
        version: (t.version + 1) as i64,
        updated_at: now,
        ..t
    }
}

/// The task value an assignment leaves behind.
pub open spec fn apply_assign_v(t: SharedTaskV, new_assignee: Option<u128>, now: i64) -> SharedTaskV {
    SharedTaskV {
        assignee_user_id: new_assignee,
        version: (t.version + 1) as i64,
        updated_at: now,
        ..t
    }
}

/// The activity event one accepted mutation appends.
pub open spec fn event_v(
    event_id: u128,
    organization_id: Seq<char>,
    seq: i64,
    kind: ActivityKind,
    task: SharedTaskV,
    user: Option<UserDataV>,
    now: i64,
) -> ActivityEventV {
    ActivityEventV {
        event_id,
        organization_id,
        project_id: task.project_id,
        seq,
        kind,
        payload: Some(SharedTaskActivityPayloadV { task, user }),
        created_at: now,
    }
}

/// Whether a sequence number lies after an optional cursor.
pub open spec fn after_cursor(seq_no: i64, cursor: Option<i64>) -> bool {
    match cursor {
        Some(c) => seq_no > c,
        None => true,
    }
}

/// Whether an event belongs to a project scope and lies after a cursor.
pub open spec fn event_in_scope(e: ActivityEventV, project_id: u128, cursor: Option<i64>) -> bool {
    e.project_id == project_id && after_cursor(e.seq, cursor)
}

/// The events of `log` that belong to `project_id` and lie after `cursor`,
/// in log order.
pub open spec fn events_after(
    log: Seq<ActivityEventV>,
    project_id: u128,
    cursor: Option<i64>,
) -> Seq<ActivityEventV>
    decreases log.len(),
{
    if log.len() == 0 {
        Seq::empty()
    } else {
        let rest = events_after(log.drop_last(), project_id, cursor);
        if event_in_scope(log.last(), project_id, cursor) {
            rest.push(log.last())
        } else {
            rest
        }
    }
}

/// `events_after` distributes over concatenation of logs.
pub proof fn lemma_events_after_add(
    a: Seq<ActivityEventV>,
    b: Seq<ActivityEventV>,
    project_id: u128,
    cursor: Option<i64>,
)
    ensures
        events_after(a + b, project_id, cursor) == events_after(a, project_id, cursor)
            + events_after(b, project_id, cursor),
    decreases b.len(),
{
    if b.len() == 0 {
        assert(a + b =~= a);
        assert(events_after(b, project_id, cursor) =~= Seq::<ActivityEventV>::empty());
        assert(events_after(a, project_id, cursor) + events_after(b, project_id, cursor)
            =~= events_after(a, project_id, cursor));
    } else {
        lemma_events_after_add(a, b.drop_last(), project_id, cursor);
        assert((a + b).drop_last() =~= a + b.drop_last());
        assert((a + b).last() == b.last());
        if event_in_scope(b.last(), project_id, cursor) {
            assert(events_after(a + b, project_id, cursor) =~= (events_after(
                a,
                project_id,
                cursor,
            ) + events_after(b.drop_last(), project_id, cursor)).push(b.last()));
            assert(events_after(a, project_id, cursor) + events_after(b, project_id, cursor)
                =~= (events_after(a, project_id, cursor) + events_after(
                b.drop_last(),
                project_id,
                cursor,
            )).push(b.last()));
        } else {
            assert(events_after(a + b, project_id, cursor) =~= events_after(
                a,
                project_id,
                cursor,
            ) + events_after(b.drop_last(), project_id, cursor));
        }
    }
}

/// Every event `events_after` returns is in scope, and the count cannot
/// exceed the log's length.
pub proof fn lemma_events_after_scope(
    log: Seq<ActivityEventV>,
    project_id: u128,
    cursor: Option<i64>,
)
    ensures
        events_after(log, project_id, cursor).len() <= log.len(),
        forall|i: int|
            0 <= i < events_after(log, project_id, cursor).len() ==> event_in_scope(
                #[trigger] events_after(log, project_id, cursor)[i],
                project_id,
                cursor,
            ),
    decreases log.len(),
{
    if log.len() > 0 {
        lemma_events_after_scope(log.drop_last(), project_id, cursor);
    }
}

/// Mathematical value of a vector of events.
pub open spec fn evs_view(v: Seq<ActivityEvent>) -> Seq<ActivityEventV> {
    v.map_values(|e: ActivityEvent| e@)
}

/// Whether sequence numbers increase strictly along a mathematical log.
pub open spec fn log_sorted_v(log: Seq<ActivityEventV>) -> bool {
    forall|i: int, j: int| 0 <= i < j < log.len() ==> #[trigger] log[i].seq < #[trigger] log[j].seq
}

/// What a bulk snapshot promises about its task list: each payload is the
/// authoritative state of one task of the scope, every task of the scope
/// appears, and no id appears twice.
pub open spec fn snapshot_describes(
    r: BulkSharedTasksResponse,
    store: SharedTaskStoreV,
    project_id: u128,
) -> bool {
    &&& forall|i: int|
        0 <= i < r.tasks@.len() ==> {
            &&& store.tasks.dom().contains(#[trigger] r.tasks@[i].task.id)
            &&& r.tasks@[i].task@ == store.tasks[r.tasks@[i].task.id]
            &&& r.tasks@[i].task.project_id == project_id
            &&& opt_user_view(r.tasks@[i].user) == summary_of(
                store.users,
                r.tasks@[i].task@.assignee_user_id,
            )
        }
    &&& forall|k: u128|
        store.tasks.dom().contains(k) && (#[trigger] store.tasks[k]).project_id == project_id
            ==> exists|i: int| 0 <= i < r.tasks@.len() && (#[trigger] r.tasks@[i].task.id) == k
    &&& forall|i: int, j: int|
        0 <= i < r.tasks@.len() && 0 <= j < r.tasks@.len() && (#[trigger] r.tasks@[i].task.id) == (
        #[trigger] r.tasks@[j].task.id) ==> i == j
}

/// Room for `n` further accepted mutations in the machine integers that
/// number versions, sequence numbers and generated ids; every realistic
/// state has it for any modest `n`.  Each accepted mutation ensures that
/// room for `n + 1` beforehand leaves room for `n` afterwards, so verified
/// callers can chain mutations.
pub open spec fn store_headroom(s: SharedTaskStoreV, n: int) -> bool {
    &&& s.next_seq + n <= 0x7fff_ffff_ffff_ffff
    &&& s.next_uuid + 2 * n < u128::MAX
    &&& forall|k: u128|
        #[trigger] s.tasks.dom().contains(k) ==> s.tasks[k].version + n
            <= 0x7fff_ffff_ffff_ffff
}

/// One accepted mutation consumes one unit of headroom: it advances the
/// sequence number by at most one, draws at most two generated ids, and
/// either raises one version by at most one or starts a task at version 1.
pub proof fn lemma_headroom_step(pre: SharedTaskStoreV, post: SharedTaskStoreV)
    requires
        pre.next_seq >= 1,
        post.next_seq <= pre.next_seq + 1,
        post.next_uuid <= pre.next_uuid + 2,
        forall|k: u128|
            #[trigger] post.tasks.dom().contains(k) ==> (pre.tasks.dom().contains(k)
                && post.tasks[k].version <= pre.tasks[k].version + 1) || post.tasks[k].version
                == 1,
    ensures
        forall|n: int|
            n >= 0 && store_headroom(pre, n + 1) ==> #[trigger] store_headroom(post, n),
{
    assert forall|n: int| n >= 0 && store_headroom(pre, n + 1) implies #[trigger] store_headroom(
        post,
        n,
    ) by {
        assert forall|k: u128| #[trigger] post.tasks.dom().contains(k) implies post.tasks[k].version
            + n <= 0x7fff_ffff_ffff_ffff by {
            if pre.tasks.dom().contains(k) && post.tasks[k].version <= pre.tasks[k].version + 1 {
                assert(pre.tasks[k].version + (n + 1) <= 0x7fff_ffff_ffff_ffff);
            } else {
                assert(post.tasks[k].version == 1);
                assert(pre.next_seq + (n + 1) <= 0x7fff_ffff_ffff_ffff);
            }
        }
    }
}

/// Mathematical state of the store.
pub ghost struct SharedTaskStoreV {
    pub organization_id: Seq<char>,
    pub tasks: Map<u128, SharedTaskV>,
    pub log: Seq<ActivityEventV>,
    pub deleted: Set<u128>,
    pub users: Map<u128, UserDataV>,
    pub next_seq: i64,
    pub next_uuid: u128,
}

/// The authoritative store of one organization's shared tasks, together with
/// that organization's append-only activity log.
pub struct SharedTaskStore {
    organization_id: String,
    tasks: Vec<SharedTask>,
    log: Vec<ActivityEvent>,
    deleted_ids: Vec<u128>,
    users: Vec<UserData>,
    next_seq: i64,
    next_uuid: u128,
}

impl View for SharedTaskStore {
    type V = SharedTaskStoreV;

    closed spec fn view(&self) -> SharedTaskStoreV {
        SharedTaskStoreV {
            organization_id: self.organization_id@,
            tasks: tasks_as_map(self.tasks@),
            log: self.log@.map_values(|e: ActivityEvent| e@),
            deleted: self.deleted_ids@.to_set(),
            users: users_as_map(self.users@),
            next_seq: self.next_seq,
            next_uuid: self.next_uuid,
        }
    }
}

impl SharedTaskStore {
    /// Internal well-formedness: unique ids, a strictly increasing log whose
    /// sequence numbers stay below `next_seq`, versions at least 1, and rows
    /// that carry this store's organization.
    pub closed spec fn wf(&self) -> bool {
        &&& task_ids_unique(self.tasks@)
        &&& user_ids_unique(self.users@)
        &&& log_seqs_increasing(self.log@)
        &&& forall|i: int| 0 <= i < self.log@.len() ==> #[trigger] self.log@[i].seq < self.next_seq
        &&& forall|i: int| 0 <= i < self.log@.len() ==> #[trigger] self.log@[i].seq >= 1
        &&& forall|i: int|
            0 <= i < self.log@.len() ==> match (#[trigger] self.log@[i]).payload {
                Some(p) => p.task.project_id == self.log@[i].project_id,
                None => true,
            }
        &&& self.next_seq >= 1
        &&& forall|i: int| 0 <= i < self.tasks@.len() ==> #[trigger] self.tasks@[i].version >= 1
        &&& forall|i: int|
            0 <= i < self.tasks@.len() ==> (#[trigger] self.tasks@[i].organization_id)@
                == self.organization_id@
        &&& forall|i: int| 0 <= i < self.tasks@.len() ==> #[trigger] self.tasks@[i].id < self.next_uuid
    }

    /// Room for `n` further accepted mutations.
    pub open spec fn mutation_headroom(&self, n: int) -> bool {
        store_headroom(self@, n)
    }

    /// Room for one more accepted mutation.
    pub open spec fn headroom(&self) -> bool {
        self.mutation_headroom(1)
    }

    /// An empty store for one organization.
    pub fn new(organization_id: String) -> (r: SharedTaskStore)
        ensures
            r.wf(),
            r.headroom(),
            r@.organization_id == organization_id@,
            r@.tasks == Map::<u128, SharedTaskV>::empty(),
            r@.log == Seq::<ActivityEventV>::empty(),
            r@.deleted == Set::<u128>::empty(),
            r@.users == Map::<u128, UserDataV>::empty(),
            r@.next_seq == 1,
            r@.next_uuid == 1,
    {
        let r = SharedTaskStore {
            organization_id,
            tasks: Vec::new(),
            log: Vec::new(),
            deleted_ids: Vec::new(),
            users: Vec::new(),
            next_seq: 1,
            next_uuid: 1,
        };
        proof {
            assert(r@.tasks =~= Map::<u128, SharedTaskV>::empty());
            assert(r@.users =~= Map::<u128, UserDataV>::empty());
            assert(r@.deleted =~= Set::<u128>::empty());
            assert(r@.log =~= Seq::<ActivityEventV>::empty());
        }
        r
    }

    /// Registers a member's user record, used to enrich event payloads.
    pub fn register_user(&mut self, user: UserData)
        requires
            old(self).wf(),
            old(self).headroom(),
            !old(self)@.users.dom().contains(user.id),
        ensures
            final(self).wf(),
            final(self).headroom(),
            final(self)@ == (SharedTaskStoreV { users: old(self)@.users.insert(user.id, user@), ..old(self)@ }),
    {
        let ghost oldu = self.users@;
        let ghost uid = user.id;
        let ghost uv = user@;
        self.users.push(user);
        proof {
            assert forall|k: u128| #[trigger]
                users_contain(self.users@, k) implies (users_contain(oldu, k) || k == uid) by {
                let i = user_idx(self.users@, k);
                assert(0 <= i < self.users@.len() && self.users@[i].id == k);
                if i < oldu.len() {
                    assert(oldu[i].id == k);
                }
            }
            assert forall|k: u128| users_contain(oldu, k) implies #[trigger] users_contain(
                self.users@,
                k,
            ) by {
                let i = user_idx(oldu, k);
                assert(self.users@[i].id == k);
            }
            assert(users_contain(self.users@, uid)) by {
                assert(self.users@[oldu.len() as int].id == uid);
            }
            assert(user_ids_unique(self.users@));
            assert forall|k: u128| users_contain(oldu, k) implies users_as_map(self.users@)[k]
                == users_as_map(oldu)[k] by {
                let i = user_idx(oldu, k);
                assert(0 <= i < oldu.len() && oldu[i].id == k);
                assert(self.users@[i].id == k);
                lemma_user_idx_unique(self.users@, i, k);
            }
            assert(users_as_map(self.users@)[uid] == uv) by {
                lemma_user_idx_unique(self.users@, oldu.len() as int, uid);
            }
            assert(users_as_map(self.users@) =~= users_as_map(oldu).insert(uid, uv));
            assert(self@ =~~= (SharedTaskStoreV { users: users_as_map(oldu).insert(uid, uv), ..old(self)@ }));
        }
    }

    /// The current version of a task, if it exists.
    pub fn version_of(&self, task_id: u128) -> (r: Option<i64>)
        requires
            self.wf(),
        ensures
            r == if self@.tasks.dom().contains(task_id) {
                Some(self@.tasks[task_id].version)
            } else {
                None::<i64>
            },
    {
        match self.find_index(task_id) {
            Some(i) => Some(self.tasks[i].version),
            None => None,
        }
    }

    /// The current state of a task, if it exists.
    pub fn find_by_id(&self, task_id: u128) -> (r: Option<SharedTask>)
        requires
            self.wf(),
        ensures
            match r {
                Some(t) => self@.tasks.dom().contains(task_id) && t@ == self@.tasks[task_id]
                    && t.id == task_id,
                None => !self@.tasks.dom().contains(task_id),
            },
    {
        match self.find_index(task_id) {
            Some(i) => {
                let t = self.tasks[i].clone();
                proof {
                    lemma_task_idx_unique(self.tasks@, i as int, task_id);
                }
                Some(t)
            },
            None => None,
        }
    }

    /// Index of the row holding `task_id`, if any.
    fn find_index(&self, task_id: u128) -> (r: Option<usize>)
        requires
            self.wf(),
        ensures
            match r {
                Some(i) => i < self.tasks@.len() && self.tasks@[i as int].id == task_id
                    && self@.tasks.dom().contains(task_id) && task_idx(self.tasks@, task_id)
                    == i as int,
                None => !self@.tasks.dom().contains(task_id),
            },
    {
        let n = self.tasks.len();
        let mut i: usize = 0;
        while i < n
            invariant
                self.wf(),
                n == self.tasks@.len(),
                i <= n,
                forall|j: int| 0 <= j < i ==> #[trigger] self.tasks@[j].id != task_id,
            decreases n - i,
        {
            if self.tasks[i].id == task_id {
                proof {
                    lemma_task_idx_unique(self.tasks@, i as int, task_id);
                }
                return Some(i);
            }
            i = i + 1;
        }
        proof {
            assert(!tasks_contain(self.tasks@, task_id));
        }
        None
    }

    /// Whether a user is registered with this organization.
    pub fn has_user(&self, user_id: u128) -> (r: bool)
        requires
            self.wf(),
        ensures
            r == self@.users.dom().contains(user_id),
    {
        self.find_user(user_id).is_some()
    }

    /// The registered user record with the given id, if any.
    fn find_user(&self, user_id: u128) -> (r: Option<UserData>)
        requires
            self.wf(),
        ensures
            match r {
                Some(u) => self@.users.dom().contains(user_id) && u@ == self@.users[user_id],
                None => !self@.users.dom().contains(user_id),
            },
    {
        let n = self.users.len();
        let mut i: usize = 0;
        while i < n
            invariant
                self.wf(),
                n == self.users@.len(),
                i <= n,
                forall|j: int| 0 <= j < i ==> #[trigger] self.users@[j].id != user_id,
            decreases n - i,
        {
            if self.users[i].id == user_id {
                let u = self.users[i].clone();
                proof {
                    lemma_user_idx_unique(self.users@, i as int, user_id);
                }
                return Some(u);
            }
            i = i + 1;
        }
        proof {
            assert(!users_contain(self.users@, user_id));
        }
        None
    }

    /// The user summary an event payload carries for an assignee.
    fn summary_for(&self, assignee: Option<u128>) -> (r: Option<UserData>)
        requires
            self.wf(),
        ensures
            opt_user_view(r) == summary_of(self@.users, assignee),
    {
        match assignee {
            Some(id) => self.find_user(id),
            None => None,
        }
    }

    /// Appends the one activity event of an accepted mutation, with the given
    /// task state as its authoritative payload.  Relied on by every mutation:
    /// the append happens in the same atomic step as the row change.
    fn push_event(&mut self, kind: ActivityKind, task: SharedTask, now: i64) -> (ev_seq: i64)
        requires
            old(self).wf(),
            old(self)@.next_seq < 0x7fff_ffff_ffff_ffff,
            old(self)@.next_uuid < u128::MAX,
        ensures
            final(self).wf(),
            ev_seq == old(self)@.next_seq,
            final(self)@ == (SharedTaskStoreV {
                log: old(self)@.log.push(
                    event_v(
                        old(self)@.next_uuid,
                        old(self)@.organization_id,
                        old(self)@.next_seq,
                        kind,
                        task@,
                        summary_of(old(self)@.users, task@.assignee_user_id),
                        now,
                    ),
                ),
                next_seq: (old(self)@.next_seq + 1) as i64,
                next_uuid: (old(self)@.next_uuid + 1) as u128,
                ..old(self)@
            }),
    {
        let seq = self.next_seq;
        let user = self.summary_for(task.assignee_user_id);
        let event = ActivityEvent {
            event_id: self.next_uuid,
            organization_id: self.organization_id.clone(),
            project_id: task.project_id,
            seq,
            kind,
            payload: Some(SharedTaskActivityPayload { task, user }),
            created_at: now,
        };
        self.log.push(event);
        self.next_seq = self.next_seq + 1;
        self.next_uuid = self.next_uuid + 1;
        proof {
            assert(self.log@.map_values(|e: ActivityEvent| e@) =~= old(self).log@.map_values(
                |e: ActivityEvent| e@,
            ).push(self.log@.last()@));
            assert(self@ =~~= (SharedTaskStoreV {
                log: old(self)@.log.push(
                    event_v(
                        old(self)@.next_uuid,
                        old(self)@.organization_id,
                        old(self)@.next_seq,
                        kind,
                        task@,
                        summary_of(old(self)@.users, task@.assignee_user_id),
                        now,
                    ),
                ),
                next_seq: (old(self)@.next_seq + 1) as i64,
                next_uuid: (old(self)@.next_uuid + 1) as u128,
                ..old(self)@
            }));
        }
        seq
    }

    /// Creates a shared task: the row is inserted at version 1 and exactly
    /// one `Upserted` activity event is appended in the same atomic step.
    pub fn create(&mut self, data: CreateSharedTaskData, now: i64) -> (r: SharedTaskResponse)
        requires
            old(self).wf(),
            old(self).headroom(),
        ensures
            final(self).wf(),
            forall|n: int|
                n >= 0 && old(self).mutation_headroom(n + 1)
                    ==> #[trigger] final(self).mutation_headroom(n),
            r.task@ == (SharedTaskV {
                id: old(self)@.next_uuid,
                organization_id: old(self)@.organization_id,
                project_id: data.project_id,
                title: data.title@,
                description: opt_str_view(data.description),
                status: TaskStatus::Todo,
                creator_user_id: Some(data.creator_user_id),
                assignee_user_id: data.assignee_user_id,
                version: 1,
                created_at: now,
                updated_at: now,
            }),
            opt_user_view(r.user) == summary_of(old(self)@.users, data.assignee_user_id),
            !old(self)@.tasks.dom().contains(r.task.id),
            final(self)@ == (SharedTaskStoreV {
                tasks: old(self)@.tasks.insert(r.task.id, r.task@),
                log: old(self)@.log.push(
                    event_v(
                        (old(self)@.next_uuid + 1) as u128,
                        old(self)@.organization_id,
                        old(self)@.next_seq,
                        ActivityKind::Upserted,
                        r.task@,
                        summary_of(old(self)@.users, data.assignee_user_id),
                        now,
                    ),
                ),
                next_seq: (old(self)@.next_seq + 1) as i64,
                next_uuid: (old(self)@.next_uuid + 2) as u128,
                ..old(self)@
            }),
    {
        let task_id = self.next_uuid;
        self.next_uuid = self.next_uuid + 1;
        let task = SharedTask {
            id: task_id,
            organization_id: self.organization_id.clone(),
            project_id: data.project_id,
            title: data.title,
            description: data.description,
            status: TaskStatus::Todo,
            creator_user_id: Some(data.creator_user_id),
            assignee_user_id: data.assignee_user_id,
            version: 1,
            created_at: now,
            updated_at: now,
        };
        let ghost s_old = self.tasks@;
        proof {
            assert(!tasks_contain(s_old, task_id));
        }
        let resp_task = task.clone();
        self.tasks.push(task);
        proof {
            self.lemma_tasks_push(s_old, task_id);
        }
        let user = self.summary_for(resp_task.assignee_user_id);
        let payload_task = resp_task.clone();
        self.push_event(ActivityKind::Upserted, payload_task, now);
        proof {
            assert(self@.tasks =~= old(self)@.tasks.insert(task_id, resp_task@));
            lemma_headroom_step(old(self)@, self@);
        }
        SharedTaskResponse { task: resp_task, user }
    }

    /// Updates a shared task under optimistic concurrency: a caller-echoed
    /// version different from the stored one is rejected with `Conflict` and
    /// nothing changes; an accepted update raises the version by exactly one
    /// and appends exactly one `Upserted` activity event atomically.
    pub fn update(&mut self, task_id: u128, data: UpdateSharedTaskData, now: i64) -> (r: Result<
        SharedTaskResponse,
        SharedTaskError,
    >)
        requires
            old(self).wf(),
            old(self).headroom(),
        ensures
            final(self).wf(),
            forall|n: int|
                n >= 0 && old(self).mutation_headroom(n + 1)
                    ==> #[trigger] final(self).mutation_headroom(n),
            match r {
                Ok(resp) => {
                    &&& old(self)@.tasks.dom().contains(task_id)
                    &&& version_matches(old(self)@.tasks[task_id].version, data.version)
                    &&& resp.task@ == apply_update_v(
                        old(self)@.tasks[task_id],
                        opt_str_view(data.title),
                        opt_str_view(data.description),
                        data.status,
                        now,
                    )
                    &&& opt_user_view(resp.user) == summary_of(
                        old(self)@.users,
                        resp.task@.assignee_user_id,
                    )
                    &&& final(self)@ == (SharedTaskStoreV {
                        tasks: old(self)@.tasks.insert(task_id, resp.task@),
                        log: old(self)@.log.push(
                            event_v(
                                old(self)@.next_uuid,
                                old(self)@.organization_id,
                                old(self)@.next_seq,
                                ActivityKind::Upserted,
                                resp.task@,
                                summary_of(old(self)@.users, resp.task@.assignee_user_id),
                                now,
                            ),
                        ),
                        next_seq: (old(self)@.next_seq + 1) as i64,
                        next_uuid: (old(self)@.next_uuid + 1) as u128,
                        ..old(self)@
                    })
                },
                Err(SharedTaskError::NotFound) => {
                    &&& !old(self)@.tasks.dom().contains(task_id)
                    &&& final(self)@ == old(self)@
                },
                Err(SharedTaskError::Conflict) => {
                    &&& old(self)@.tasks.dom().contains(task_id)
                    &&& !version_matches(old(self)@.tasks[task_id].version, data.version)
                    &&& final(self)@ == old(self)@
                },
                Err(_) => false,
            },
    {
        let idx = match self.find_index(task_id) {
            Some(i) => i,
            None => {
                proof {
                    lemma_headroom_step(old(self)@, self@);
                }
                return Err(SharedTaskError::NotFound);
            },
        };
        let stored_version = self.tasks[idx].version;
        match data.version {
            Some(v) => {
                if stored_version != v {
                    proof {
                        lemma_headroom_step(old(self)@, self@);
                    }
                    return Err(SharedTaskError::Conflict);
                }
            },
            None => {},
        }
        let ghost s_old = self.tasks@;
        let mut t = self.tasks[idx].clone();
        match data.title {
            Some(s) => {
                t.title = s;
            },
            None => {},
        }
        match data.description {
            Some(d) => {
                t.description = Some(d);
            },
            None => {},
        }
        match data.status {
            Some(st) => {
                t.status = st;
            },
            None => {},
        }
        t.version = stored_version + 1;
        t.updated_at = now;
        let resp_task = t.clone();
        self.tasks.set(idx, t);
        proof {
            self.lemma_tasks_set(s_old, idx as int, task_id);
            self.lemma_row_facts_after_set(s_old, idx as int);
        }
        let user = self.summary_for(resp_task.assignee_user_id);
        let payload_task = resp_task.clone();
        self.push_event(ActivityKind::Upserted, payload_task, now);
        proof {
            lemma_headroom_step(old(self)@, self@);
        }
        Ok(SharedTaskResponse { task: resp_task, user })
    }

    /// Transfers a task's assignment under the same optimistic-concurrency
    /// rule as `update`.
    pub fn assign_task(&mut self, task_id: u128, data: AssignTaskData, now: i64) -> (r: Result<
        SharedTaskResponse,
        SharedTaskError,
    >)
        requires
            old(self).wf(),
            old(self).headroom(),
        ensures
            final(self).wf(),
            forall|n: int|
                n >= 0 && old(self).mutation_headroom(n + 1)
                    ==> #[trigger] final(self).mutation_headroom(n),
            match r {
                Ok(resp) => {
                    &&& old(self)@.tasks.dom().contains(task_id)
                    &&& version_matches(old(self)@.tasks[task_id].version, data.version)
                    &&& resp.task@ == apply_assign_v(
                        old(self)@.tasks[task_id],
                        data.new_assignee_user_id,
                        now,
                    )
                    &&& opt_user_view(resp.user) == summary_of(
                        old(self)@.users,
                        data.new_assignee_user_id,
                    )
                    &&& final(self)@ == (SharedTaskStoreV {
                        tasks: old(self)@.tasks.insert(task_id, resp.task@),
                        log: old(self)@.log.push(
                            event_v(
                                old(self)@.next_uuid,
                                old(self)@.organization_id,
                                old(self)@.next_seq,
                                ActivityKind::Upserted,
                                resp.task@,
                                summary_of(old(self)@.users, data.new_assignee_user_id),
                                now,
                            ),
                        ),
                        next_seq: (old(self)@.next_seq + 1) as i64,
                        next_uuid: (old(self)@.next_uuid + 1) as u128,
                        ..old(self)@
                    })
                },
                Err(SharedTaskError::NotFound) => {
                    &&& !old(self)@.tasks.dom().contains(task_id)
                    &&& final(self)@ == old(self)@
                },
                Err(SharedTaskError::Conflict) => {
                    &&& old(self)@.tasks.dom().contains(task_id)
                    &&& !version_matches(old(self)@.tasks[task_id].version, data.version)
                    &&& final(self)@ == old(self)@
                },
                Err(_) => false,
            },
    {
        let idx = match self.find_index(task_id) {
            Some(i) => i,
            None => {
                proof {
                    lemma_headroom_step(old(self)@, self@);
                }
                return Err(SharedTaskError::NotFound);
            },
        };
        let stored_version = self.tasks[idx].version;
        match data.version {
            Some(v) => {
                if stored_version != v {
                    proof {
                        lemma_headroom_step(old(self)@, self@);
                    }
                    return Err(SharedTaskError::Conflict);
                }
            },
            None => {},
        }
        let ghost s_old = self.tasks@;
        let mut t = self.tasks[idx].clone();
        t.assignee_user_id = data.new_assignee_user_id;
        t.version = stored_version + 1;
        t.updated_at = now;
        let resp_task = t.clone();
        self.tasks.set(idx, t);
        proof {
            self.lemma_tasks_set(s_old, idx as int, task_id);
            self.lemma_row_facts_after_set(s_old, idx as int);
        }
        let user = self.summary_for(data.new_assignee_user_id);
        let payload_task = resp_task.clone();
        self.push_event(ActivityKind::Upserted, payload_task, now);
        proof {
            lemma_headroom_step(old(self)@, self@);
        }
        Ok(SharedTaskResponse { task: resp_task, user })
    }

    /// Deletes a shared task under the same optimistic-concurrency rule: the
    /// row is removed, its id is recorded as deleted, and exactly one
    /// `Deleted` activity event carrying the task's last state is appended.
    pub fn delete_task(&mut self, task_id: u128, data: DeleteTaskData, now: i64) -> (r: Result<
        SharedTaskResponse,
        SharedTaskError,
    >)
        requires
            old(self).wf(),
            old(self).headroom(),
        ensures
            final(self).wf(),
            forall|n: int|
                n >= 0 && old(self).mutation_headroom(n + 1)
                    ==> #[trigger] final(self).mutation_headroom(n),
            match r {
                Ok(resp) => {
                    &&& old(self)@.tasks.dom().contains(task_id)
                    &&& version_matches(old(self)@.tasks[task_id].version, data.version)
                    &&& resp.task@ == old(self)@.tasks[task_id]
                    &&& final(self)@ == (SharedTaskStoreV {
                        tasks: old(self)@.tasks.remove(task_id),
                        log: old(self)@.log.push(
                            event_v(
                                old(self)@.next_uuid,
                                old(self)@.organization_id,
                                old(self)@.next_seq,
                                ActivityKind::Deleted,
                                old(self)@.tasks[task_id],
                                summary_of(
                                    old(self)@.users,
                                    old(self)@.tasks[task_id].assignee_user_id,
                                ),
                                now,
                            ),
                        ),
                        deleted: old(self)@.deleted.insert(task_id),
                        next_seq: (old(self)@.next_seq + 1) as i64,
                        next_uuid: (old(self)@.next_uuid + 1) as u128,
                        ..old(self)@
                    })
                },
                Err(SharedTaskError::NotFound) => {
                    &&& !old(self)@.tasks.dom().contains(task_id)
                    &&& final(self)@ == old(self)@
                },
                Err(SharedTaskError::Conflict) => {
                    &&& old(self)@.tasks.dom().contains(task_id)
                    &&& !version_matches(old(self)@.tasks[task_id].version, data.version)
                    &&& final(self)@ == old(self)@
                },
                Err(_) => false,
            },
    {
        let idx = match self.find_index(task_id) {
            Some(i) => i,
            None => {
                proof {
                    lemma_headroom_step(old(self)@, self@);
                }
                return Err(SharedTaskError::NotFound);
            },
        };
        let stored_version = self.tasks[idx].version;
        match data.version {
            Some(v) => {
                if stored_version != v {
                    proof {
                        lemma_headroom_step(old(self)@, self@);
                    }
                    return Err(SharedTaskError::Conflict);
                }
            },
            None => {},
        }
        let ghost s_old = self.tasks@;
        let ghost d_old = self.deleted_ids@;
        let removed = self.tasks.remove(idx);
        proof {
            self.lemma_tasks_remove(s_old, idx as int, task_id);
            assert forall|j: int| 0 <= j < self.tasks@.len() implies {
                &&& #[trigger] self.tasks@[j].version >= 1
                &&& self.tasks@[j].organization_id@ == self.organization_id@
                &&& self.tasks@[j].id < self.next_uuid
            } by {
                if j < idx {
                    assert(self.tasks@[j] == s_old[j]);
                } else {
                    assert(self.tasks@[j] == s_old[j + 1]);
                }
            }
        }
        self.deleted_ids.push(task_id);
        proof {
            broadcast use vstd::seq_lib::lemma_seq_contains_after_push;

            assert(self.deleted_ids@.to_set() =~= d_old.to_set().insert(task_id));
        }
        let resp_task = removed.clone();
        let user = self.summary_for(resp_task.assignee_user_id);
        let payload_task = resp_task.clone();
        self.push_event(ActivityKind::Deleted, payload_task, now);
        proof {
            lemma_headroom_step(old(self)@, self@);
        }
        Ok(SharedTaskResponse { task: resp_task, user })
    }

    /// A well-formed store's log, seen mathematically, is strictly ordered
    /// by sequence number, every sequence number is at least 1, none lies
    /// past the newest one, and every payload names the event's own project
    /// — the store never emits an event whose payload belongs elsewhere.
    pub proof fn lemma_log_facts(&self)
        requires
            self.wf(),
        ensures
            log_sorted_v(self@.log),
            forall|i: int| 0 <= i < self@.log.len() ==> (#[trigger] self@.log[i].seq) >= 1,
            self@.log.len() > 0 ==> forall|i: int|
                0 <= i < self@.log.len() ==> (#[trigger] self@.log[i].seq) <= self@.log.last().seq,
            forall|i: int|
                0 <= i < self@.log.len() ==> match (#[trigger] self@.log[i]).payload {
                    Some(p) => p.task.project_id == self@.log[i].project_id,
                    None => true,
                },
    {
        assert forall|i: int|
            0 <= i < self@.log.len() implies match (#[trigger] self@.log[i]).payload {
            Some(p) => p.task.project_id == self@.log[i].project_id,
            None => true,
        } by {
            assert(self@.log[i] == self.log@[i]@);
        }
        assert forall|i: int| 0 <= i < self@.log.len() implies (#[trigger] self@.log[i].seq)
            >= 1 by {
            assert(self@.log[i] == self.log@[i]@);
        }
        assert forall|i: int, j: int| 0 <= i < j < self@.log.len() implies #[trigger] self@.log[i].seq
            < #[trigger] self@.log[j].seq by {
            assert(self@.log[i] == self.log@[i]@);
            assert(self@.log[j] == self.log@[j]@);
        }
        if self@.log.len() > 0 {
            assert forall|i: int| 0 <= i < self@.log.len() implies (#[trigger] self@.log[i].seq)
                <= self@.log.last().seq by {
                if i < self@.log.len() - 1 {
                    assert(self@.log[i].seq < self@.log[self@.log.len() - 1].seq);
                }
            }
        }
    }

    /// One page of the activity log: the first `limit` events of the scope
    /// after the cursor, in log order.  Backfill at session attach and
    /// catch-up paging both read through this.
    pub fn fetch_since(&self, project_id: u128, after: Option<i64>, limit: usize) -> (r: Vec<
        ActivityEvent,
    >)
        requires
            self.wf(),
        ensures
            ({
                let remaining = events_after(self@.log, project_id, after);
                &&& r@.len() <= limit
                &&& evs_view(r@) == if remaining.len() <= limit {
                    remaining
                } else {
                    remaining.take(limit as int)
                }
            }),
    {
        let n = self.log.len();
        let mut out: Vec<ActivityEvent> = Vec::new();
        let mut i: usize = 0;
        proof {
            assert(evs_view(self.log@.subrange(0, 0)) =~= Seq::<ActivityEventV>::empty());
            assert(events_after(Seq::<ActivityEventV>::empty(), project_id, after) =~= Seq::<
                ActivityEventV,
            >::empty());
            assert(evs_view(out@) =~= Seq::<ActivityEventV>::empty());
        }
        while i < n && out.len() < limit
            invariant
                n == self.log@.len(),
                i <= n,
                out@.len() <= limit,
                evs_view(out@) == events_after(
                    evs_view(self.log@.subrange(0, i as int)),
                    project_id,
                    after,
                ),
            decreases n - i,
        {
            let ghost prefix = evs_view(self.log@.subrange(0, i as int));
            let ghost out_old = out@;
            let e = &self.log[i];
            let in_scope = e.project_id == project_id && (match after {
                Some(c) => e.seq > c,
                None => true,
            });
            if in_scope {
                let copy = e.clone();
                out.push(copy);
            }
            proof {
                let ev = self.log@[i as int]@;
                let next = evs_view(self.log@.subrange(0, i as int + 1));
                assert(next =~= prefix + seq![ev]);
                lemma_events_after_add(prefix, seq![ev], project_id, after);
                assert(seq![ev].drop_last() =~= Seq::<ActivityEventV>::empty());
                assert(events_after(Seq::<ActivityEventV>::empty(), project_id, after) =~= Seq::<
                    ActivityEventV,
                >::empty());
                assert(in_scope == event_in_scope(ev, project_id, after));
                if in_scope {
                    assert(events_after(seq![ev], project_id, after) =~= seq![ev]);
                    assert(evs_view(out@) =~= evs_view(out_old).push(ev));
                    assert(evs_view(out@) =~= events_after(next, project_id, after));
                } else {
                    assert(events_after(seq![ev], project_id, after) =~= Seq::<
                        ActivityEventV,
                    >::empty());
                    assert(evs_view(out@) =~= events_after(next, project_id, after));
                }
            }
            i = i + 1;
        }
        proof {
            let whole = evs_view(self.log@);
            let remaining = events_after(whole, project_id, after);
            let prefix = evs_view(self.log@.subrange(0, i as int));
            let suffix = evs_view(self.log@.subrange(i as int, n as int));
            assert(whole =~= prefix + suffix);
            lemma_events_after_add(prefix, suffix, project_id, after);
            lemma_events_after_scope(suffix, project_id, after);
            if i == n {
                assert(suffix =~= Seq::<ActivityEventV>::empty());
                assert(events_after(suffix, project_id, after) =~= Seq::<
                    ActivityEventV,
                >::empty());
                assert(evs_view(out@) =~= remaining);
                assert(remaining.len() <= limit);
            } else {
                assert(out@.len() == limit);
                assert(remaining =~= events_after(prefix, project_id, after) + events_after(
                    suffix,
                    project_id,
                    after,
                ));
                assert(evs_view(out@) =~= remaining.take(limit as int));
            }
        }
        out
    }

    /// The full current task set of a scope, the deleted ids, and the
    /// newest sequence number: one atomic bulk snapshot.
    pub fn bulk_fetch(&self, project_id: u128) -> (r: BulkSharedTasksResponse)
        requires
            self.wf(),
        ensures
            r.latest_seq == (if self@.log.len() == 0 {
                None::<i64>
            } else {
                Some(self@.log.last().seq)
            }),
            r.deleted_task_ids@.to_set() == self@.deleted,
            snapshot_describes(r, self@, project_id),
    {
        let n = self.tasks.len();
        let mut payloads: Vec<SharedTaskActivityPayload> = Vec::new();
        let mut i: usize = 0;
        while i < n
            invariant
                self.wf(),
                n == self.tasks@.len(),
                i <= n,
                forall|j: int|
                    0 <= j < payloads@.len() ==> {
                        &&& self@.tasks.dom().contains(#[trigger] payloads@[j].task.id)
                        &&& payloads@[j].task@ == self@.tasks[payloads@[j].task.id]
                        &&& payloads@[j].task.project_id == project_id
                        &&& opt_user_view(payloads@[j].user) == summary_of(
                            self@.users,
                            payloads@[j].task@.assignee_user_id,
                        )
                    },
                forall|j: int|
                    0 <= j < payloads@.len() ==> tasks_contain(
                        self.tasks@.subrange(0, i as int),
                        #[trigger] payloads@[j].task.id,
                    ),
                forall|k: u128|
                    tasks_contain(self.tasks@.subrange(0, i as int), k) && (
                    #[trigger] self@.tasks[k]).project_id == project_id ==> exists|j: int|
                        0 <= j < payloads@.len() && (#[trigger] payloads@[j].task.id) == k,
                forall|j1: int, j2: int|
                    0 <= j1 < payloads@.len() && 0 <= j2 < payloads@.len() && (
                    #[trigger] payloads@[j1].task.id) == (#[trigger] payloads@[j2].task.id)
                        ==> j1 == j2,
            decreases n - i,
        {
            let ghost p_old = payloads@;
            let row = &self.tasks[i];
            let ghost row_id = self.tasks@[i as int].id;
            proof {
                lemma_task_idx_unique(self.tasks@, i as int, row_id);
            }
            if row.project_id == project_id {
                let task = row.clone();
                let user = self.summary_for(task.assignee_user_id);
                proof {
                    // the row's id cannot already be among the payloads:
                    // each payload id names a row before `i`, and ids are unique
                    assert forall|j1: int|
                        0 <= j1 < p_old.len() implies #[trigger] p_old[j1].task.id != row_id by {
                        if p_old[j1].task.id == row_id {
                            let w = choose|w: int|
                                0 <= w < self.tasks@.subrange(0, i as int).len()
                                    && #[trigger] self.tasks@.subrange(0, i as int)[w].id
                                    == p_old[j1].task.id;
                            assert(self.tasks@[w].id == row_id);
                        }
                    }
                }
                payloads.push(SharedTaskActivityPayload { task, user });
            }
            proof {
                assert forall|j: int| 0 <= j < payloads@.len() implies tasks_contain(
                    self.tasks@.subrange(0, i as int + 1),
                    #[trigger] payloads@[j].task.id,
                ) by {
                    if j < p_old.len() {
                        let w = choose|w: int|
                            0 <= w < self.tasks@.subrange(0, i as int).len()
                                && #[trigger] self.tasks@.subrange(0, i as int)[w].id
                                == p_old[j].task.id;
                        assert(self.tasks@.subrange(0, i as int + 1)[w].id == payloads@[j].task.id);
                    } else {
                        assert(self.tasks@.subrange(0, i as int + 1)[i as int].id == payloads@[j].task.id);
                    }
                }
                assert forall|k: u128|
                    tasks_contain(self.tasks@.subrange(0, i as int + 1), k) && (
                    #[trigger] self@.tasks[k]).project_id == project_id implies exists|j: int|
                        0 <= j < payloads@.len() && (#[trigger] payloads@[j].task.id) == k by {
                    let w = choose|w: int|
                        0 <= w < self.tasks@.subrange(0, i as int + 1).len()
                            && #[trigger] self.tasks@.subrange(0, i as int + 1)[w].id == k;
                    if w < i {
                        assert(self.tasks@.subrange(0, i as int)[w].id == k);
                        assert(tasks_contain(self.tasks@.subrange(0, i as int), k));
                        let j0 = choose|j0: int|
                            0 <= j0 < p_old.len() && (#[trigger] p_old[j0].task.id) == k;
                        assert(payloads@[j0].task.id == k);
                    } else {
                        // the row at `i` itself carries id `k`
                        assert(self.tasks@[i as int].id == k);
                        assert(self@.tasks[k] == self.tasks@[i as int]@);
                        assert(self.tasks@[i as int].project_id == project_id);
                        assert(payloads@.len() == p_old.len() + 1);
                        assert(payloads@[p_old.len() as int].task.id == k);
                    }
                }
            }
            i = i + 1;
        }
        proof {
            assert(self.tasks@.subrange(0, n as int) =~= self.tasks@);
            assert forall|k: u128|
                self@.tasks.dom().contains(k) && (#[trigger] self@.tasks[k]).project_id
                    == project_id implies exists|j: int|
                    0 <= j < payloads@.len() && (#[trigger] payloads@[j].task.id) == k by {
                assert(tasks_contain(self.tasks@, k));
            }
        }
        let mut deleted: Vec<u128> = Vec::new();
        let m = self.deleted_ids.len();
        let mut j: usize = 0;
        while j < m
            invariant
                m == self.deleted_ids@.len(),
                j <= m,
                deleted@ == self.deleted_ids@.subrange(0, j as int),
            decreases m - j,
        {
            deleted.push(self.deleted_ids[j]);
            proof {
                assert(deleted@ =~= self.deleted_ids@.subrange(0, j as int + 1));
            }
            j = j + 1;
        }
        proof {
            assert(deleted@ =~= self.deleted_ids@);
        }
        let latest_seq = if self.log.len() == 0 {
            None
        } else {
            Some(self.log[self.log.len() - 1].seq)
        };
        BulkSharedTasksResponse { tasks: payloads, deleted_task_ids: deleted, latest_seq }
    }


    /// Rows other than the replaced one keep every well-formedness fact.
    proof fn lemma_row_facts_after_set(&self, s_old: Seq<SharedTask>, idx: int)
        requires
            s_old.len() == self.tasks@.len(),
            0 <= idx < s_old.len(),
            forall|j: int| 0 <= j < s_old.len() && j != idx ==> self.tasks@[j] == s_old[j],
            forall|j: int|
                0 <= j < s_old.len() ==> {
                    &&& #[trigger] s_old[j].version >= 1
                    &&& s_old[j].organization_id@ == self.organization_id@
                    &&& s_old[j].id < self.next_uuid
                },
            self.tasks@[idx].version >= 1,
            self.tasks@[idx].organization_id@ == self.organization_id@,
            self.tasks@[idx].id < self.next_uuid,
        ensures
            forall|j: int|
                0 <= j < self.tasks@.len() ==> {
                    &&& #[trigger] self.tasks@[j].version >= 1
                    &&& self.tasks@[j].organization_id@ == self.organization_id@
                    &&& self.tasks@[j].id < self.next_uuid
                },
    {
        assert forall|j: int| 0 <= j < self.tasks@.len() implies {
            &&& #[trigger] self.tasks@[j].version >= 1
            &&& self.tasks@[j].organization_id@ == self.organization_id@
            &&& self.tasks@[j].id < self.next_uuid
        } by {
            if j != idx {
                assert(self.tasks@[j] == s_old[j]);
            }
        }
    }

    /// After pushing a row with a fresh id, the task map gains exactly it.
    proof fn lemma_tasks_push(&self, s_old: Seq<SharedTask>, new_id: u128)
        requires
            s_old.len() + 1 == self.tasks@.len(),
            forall|j: int| 0 <= j < s_old.len() ==> self.tasks@[j] == s_old[j],
            self.tasks@.last().id == new_id,
            task_ids_unique(s_old),
            !tasks_contain(s_old, new_id),
        ensures
            task_ids_unique(self.tasks@),
            tasks_as_map(self.tasks@) == tasks_as_map(s_old).insert(
                new_id,
                self.tasks@.last()@,
            ),
    {
        let s_new = self.tasks@;
        let n = s_old.len() as int;
        assert forall|i: int, j: int|
            0 <= i < s_new.len() && 0 <= j < s_new.len() && #[trigger] s_new[i].id
                == #[trigger] s_new[j].id implies i == j by {
            if i < n && j < n {
                assert(s_old[i].id == s_old[j].id);
            } else if i < n && j == n {
                assert(s_old[i].id == new_id);
                assert(tasks_contain(s_old, new_id));
            } else if i == n && j < n {
                assert(s_old[j].id == new_id);
                assert(tasks_contain(s_old, new_id));
            }
        }
        assert forall|k: u128| #[trigger]
            tasks_contain(s_new, k) implies (tasks_contain(s_old, k) || k == new_id) by {
            let i = choose|i: int| 0 <= i < s_new.len() && s_new[i].id == k;
            if i < n {
                assert(s_old[i].id == k);
            }
        }
        assert forall|k: u128| tasks_contain(s_old, k) implies #[trigger] tasks_contain(
            s_new,
            k,
        ) by {
            let i = choose|i: int| 0 <= i < s_old.len() && s_old[i].id == k;
            assert(s_new[i].id == k);
        }
        assert(tasks_contain(s_new, new_id));
        assert forall|k: u128| tasks_contain(s_old, k) implies tasks_as_map(s_new)[k]
            == tasks_as_map(s_old)[k] by {
            let i = task_idx(s_old, k);
            assert(0 <= i < s_old.len() && s_old[i].id == k);
            assert(s_new[i].id == k);
            lemma_task_idx_unique(s_new, i, k);
        }
        assert(tasks_as_map(s_new)[new_id] == s_new.last()@) by {
            lemma_task_idx_unique(s_new, n, new_id);
        }
        assert(tasks_as_map(s_new) =~= tasks_as_map(s_old).insert(new_id, s_new.last()@));
    }

    /// After replacing the row at the unique index of `task_id` by a row
    /// with the same id, the task map is the old map with that entry set.
    proof fn lemma_tasks_set(&self, s_old: Seq<SharedTask>, idx: int, task_id: u128)
        requires
            s_old.len() == self.tasks@.len(),
            0 <= idx < s_old.len(),
            s_old[idx].id == task_id,
            self.tasks@[idx].id == task_id,
            forall|j: int| 0 <= j < s_old.len() && j != idx ==> self.tasks@[j] == s_old[j],
            task_ids_unique(s_old),
        ensures
            task_ids_unique(self.tasks@),
            tasks_as_map(self.tasks@) == tasks_as_map(s_old).insert(
                task_id,
                self.tasks@[idx]@,
            ),
    {
        let s_new = self.tasks@;
        assert forall|j: int| 0 <= j < s_new.len() implies #[trigger] s_new[j].id
            == s_old[j].id by {}
        assert forall|i: int, j: int|
            0 <= i < s_new.len() && 0 <= j < s_new.len() && #[trigger] s_new[i].id
                == #[trigger] s_new[j].id implies i == j by {
            assert(s_old[i].id == s_old[j].id);
        }
        assert forall|k: u128| #[trigger]
            tasks_contain(s_new, k) == tasks_contain(s_old, k) by {
            if tasks_contain(s_new, k) {
                let i = choose|i: int| 0 <= i < s_new.len() && s_new[i].id == k;
                assert(s_old[i].id == k);
                assert(tasks_contain(s_old, k));
            }
            if tasks_contain(s_old, k) {
                let i = choose|i: int| 0 <= i < s_old.len() && s_old[i].id == k;
                assert(s_new[i].id == k);
                assert(tasks_contain(s_new, k));
            }
        }
        assert forall|k: u128| tasks_contain(s_old, k) && k != task_id implies tasks_as_map(
            s_new,
        )[k] == tasks_as_map(s_old)[k] by {
            let i = task_idx(s_old, k);
            assert(0 <= i < s_old.len() && s_old[i].id == k);
            assert(i != idx);
            assert(s_new[i].id == k);
            lemma_task_idx_unique(s_new, i, k);
        }
        assert(tasks_as_map(s_new)[task_id] == s_new[idx]@) by {
            lemma_task_idx_unique(s_new, idx, task_id);
        }
        assert(tasks_as_map(s_new) =~= tasks_as_map(s_old).insert(task_id, s_new[idx]@));
    }

    /// After removing the unique row of `task_id`, the task map loses
    /// exactly that entry.
    proof fn lemma_tasks_remove(&self, s_old: Seq<SharedTask>, idx: int, task_id: u128)
        requires
            self.tasks@ == s_old.remove(idx),
            0 <= idx < s_old.len(),
            s_old[idx].id == task_id,
            task_ids_unique(s_old),
        ensures
            task_ids_unique(self.tasks@),
            tasks_as_map(self.tasks@) == tasks_as_map(s_old).remove(task_id),
    {
        let s_new = self.tasks@;
        assert(s_new.len() == s_old.len() - 1);
        assert forall|j: int| 0 <= j < s_new.len() implies #[trigger] s_new[j] == (if j < idx {
            s_old[j]
        } else {
            s_old[j + 1]
        }) by {}
        assert forall|i: int, j: int|
            0 <= i < s_new.len() && 0 <= j < s_new.len() && #[trigger] s_new[i].id
                == #[trigger] s_new[j].id implies i == j by {
            let oi: int = if i < idx { i } else { i + 1 };
            let oj: int = if j < idx { j } else { j + 1 };
            assert(s_old[oi].id == s_old[oj].id);
        }
        assert forall|k: u128| #[trigger]
            tasks_contain(s_new, k) == (tasks_contain(s_old, k) && k != task_id) by {
            if tasks_contain(s_new, k) {
                let i = choose|i: int| 0 <= i < s_new.len() && s_new[i].id == k;
                let oi: int = if i < idx { i } else { i + 1 };
                assert(s_old[oi].id == k);
                assert(tasks_contain(s_old, k));
                assert(oi != idx);
                if k == task_id {
                    assert(s_old[oi].id == s_old[idx].id);
                    assert(false);
                }
            }
            if tasks_contain(s_old, k) && k != task_id {
                let i = choose|i: int| 0 <= i < s_old.len() && s_old[i].id == k;
                assert(i != idx);
                if i < idx {
                    assert(s_new[i].id == k);
                } else {
                    assert(s_new[i - 1].id == k);
                }
                assert(tasks_contain(s_new, k));
            }
        }
        assert forall|k: u128| tasks_contain(s_new, k) implies tasks_as_map(s_new)[k]
            == tasks_as_map(s_old)[k] by {
            let i = task_idx(s_old, k);
            assert(0 <= i < s_old.len() && s_old[i].id == k);
            assert(i != idx);
            let ni: int = if i < idx { i } else { i - 1 };
            assert(s_new[ni].id == k);
            lemma_task_idx_unique(s_new, ni, k);
        }
        assert(tasks_as_map(s_new) =~= tasks_as_map(s_old).remove(task_id));
    }
}

} // verus!
