//! Catch-up: bringing a replica from an old cursor to a recent one by paged
//! event replay, falling back to one bulk snapshot when the backlog gap
//! exceeds the configured threshold — so the cost stays bounded no matter
//! how deep the backlog is.

use vstd::prelude::*;

use crate::laws::{apply_events_v, lemma_snapshot_resync, resynced_scope};
use crate::model::ActivityEventV;
use crate::replica::Replica;
use crate::store::{
    SharedTaskStore, after_cursor, event_in_scope, events_after, evs_view, log_sorted_v,
};

verus! {

/// Tuning of the catch-up path: the page size used when reading the
/// activity log, and the backlog gap beyond which paging is abandoned for a
/// bulk snapshot.
#[derive(Clone, Copy, Debug)]
pub struct ShareConfig {
    pub activity_page_limit: usize,
    pub bulk_sync_threshold: u64,
}

/// How one catch-up run ended: by pure paged replay, or by falling back to
/// a bulk snapshot.  Returning the tag with the cursor keeps the threshold
/// check inside the one function that pages.
#[derive(Clone, Copy, PartialEq, Eq, Structural, Debug)]
pub enum CatchUpOutcome {
    Paged(Option<i64>),
    Resynced(Option<i64>),
}

/// Whether the newest fetched sequence number is further than `threshold`
/// past the previous cursor.
pub open spec fn gap_exceeds_v(prev: i64, newest: i64, threshold: u64) -> bool {
    newest > prev && newest - prev > threshold
}

/// The gap check of the catch-up loop: abandoning paging is decided here
/// and nowhere else.
pub fn gap_exceeds(prev: i64, newest: i64, threshold: u64) -> (r: bool)
    requires
        prev >= 0,
        threshold <= 0x7fff_ffff_ffff_ffff,
    ensures
        r == gap_exceeds_v(prev, newest, threshold),
{
    if newest <= prev {
        false
    } else {
        newest - prev > threshold as i64
    }
}

/// When every event's sequence number is at most `c`, nothing lies after
/// the cursor `c`.
pub proof fn lemma_events_after_none(
    log: Seq<ActivityEventV>,
    project_id: u128,
    c: i64,
)
    requires
        forall|i: int| 0 <= i < log.len() ==> (#[trigger] log[i].seq) <= c,
    ensures
        events_after(log, project_id, Some(c)) == Seq::<ActivityEventV>::empty(),
    decreases log.len(),
{
    if log.len() > 0 {
        lemma_events_after_none(log.drop_last(), project_id, c);
    }
}

/// Every event of a scope page is one of the log's events.
pub proof fn lemma_events_after_mem(
    log: Seq<ActivityEventV>,
    project_id: u128,
    cursor: Option<i64>,
)
    ensures
        forall|i: int|
            0 <= i < events_after(log, project_id, cursor).len() ==> log.contains(
                #[trigger] events_after(log, project_id, cursor)[i],
            ),
    decreases log.len(),
{
    let f = events_after(log, project_id, cursor);
    if log.len() > 0 {
        lemma_events_after_mem(log.drop_last(), project_id, cursor);
        let fl = events_after(log.drop_last(), project_id, cursor);
        assert forall|i: int| 0 <= i < f.len() implies log.contains(#[trigger] f[i]) by {
            if i < fl.len() {
                assert(log.drop_last().contains(fl[i]));
                let j = choose|j: int|
                    0 <= j < log.drop_last().len() && log.drop_last()[j] == fl[i];
                assert(log[j] == fl[i]);
            } else {
                assert(f[i] == log.last());
                assert(log[log.len() - 1] == log.last());
            }
        }
    }
}

/// Once the first `k` events of a scope page have been folded in and the
/// cursor stands at the `k`-th event's sequence number, what lies after the
/// cursor is exactly the rest of the page.
pub proof fn lemma_events_after_continue(
    log: Seq<ActivityEventV>,
    project_id: u128,
    c0: Option<i64>,
    k: int,
)
    requires
        log_sorted_v(log),
        0 < k <= events_after(log, project_id, c0).len(),
    ensures
        events_after(log, project_id, Some(events_after(log, project_id, c0)[k - 1].seq))
            == events_after(log, project_id, c0).skip(k),
    decreases log.len(),
{
    let f = events_after(log, project_id, c0);
    let s = f[k - 1].seq;
    if log.len() == 0 {
        assert(false);
    } else {
        let l = log.drop_last();
        let e = log.last();
        let fl = events_after(l, project_id, c0);
        assert(log_sorted_v(l));
        assert(forall|i: int| 0 <= i < l.len() ==> (#[trigger] l[i].seq) < e.seq) by {
            assert forall|i: int| 0 <= i < l.len() implies (#[trigger] l[i].seq) < e.seq by {
                assert(log[i].seq < log[log.len() - 1].seq);
            }
        }
        crate::store::lemma_events_after_scope(log, project_id, c0);
        if event_in_scope(e, project_id, c0) {
            assert(f == fl.push(e));
            if k == f.len() {
                assert(f[k - 1] == e);
                assert(!after_cursor(e.seq, Some(s)));
                assert forall|i: int| 0 <= i < l.len() implies (#[trigger] l[i].seq) <= s by {
                    assert(l[i].seq < e.seq);
                }
                lemma_events_after_none(l, project_id, s);
                assert(events_after(log, project_id, Some(s)) =~= f.skip(k));
            } else {
                assert(f[k - 1] == fl[k - 1]);
                lemma_events_after_continue(l, project_id, c0, k);
                // the last event still lies after the new cursor
                lemma_events_after_mem(l, project_id, c0);
                assert(l.contains(fl[k - 1]));
                let w = choose|w: int| 0 <= w < l.len() && l[w] == fl[k - 1];
                assert(l[w].seq < e.seq);
                assert(after_cursor(e.seq, Some(s)));
                assert(event_in_scope(e, project_id, Some(s)));
                assert(events_after(log, project_id, Some(s)) == events_after(
                    l,
                    project_id,
                    Some(s),
                ).push(e));
                assert(fl.skip(k).push(e) =~= fl.push(e).skip(k));
                assert(events_after(log, project_id, Some(s)) =~= f.skip(k));
            }
        } else {
            assert(f == fl);
            assert(k <= fl.len());
            lemma_events_after_continue(l, project_id, c0, k);
            // the skipped last event lies no further in scope after the new cursor
            assert(event_in_scope(f[k - 1], project_id, c0));
            assert(after_cursor(f[k - 1].seq, c0));
            if event_in_scope(e, project_id, Some(s)) {
                assert(e.project_id == project_id);
                assert(e.seq > s);
                match c0 {
                    Some(c) => {
                        assert(e.seq <= c);
                        assert(s > c);
                        assert(false);
                    },
                    None => {
                        assert(false);
                    },
                }
            }
            assert(events_after(log, project_id, Some(s)) == events_after(l, project_id, Some(s)));
            assert(events_after(log, project_id, Some(s)) =~= f.skip(k));
        }
    }
}

/// The newest sequence number a store's log holds, as a bulk snapshot
/// reports it.
pub open spec fn store_latest(log: Seq<ActivityEventV>) -> Option<i64> {
    if log.len() == 0 {
        None
    } else {
        Some(log.last().seq)
    }
}

/// Whether the very first page read from the given cursor already shows a
/// backlog gap over the threshold: there is a page to read, and its newest
/// sequence number lies more than `threshold` past the cursor.
pub open spec fn first_page_gap(
    log: Seq<ActivityEventV>,
    project_id: u128,
    last_seq: Option<i64>,
    limit: int,
    threshold: u64,
) -> bool {
    match last_seq {
        Some(c0) => ({
            let f = events_after(log, project_id, last_seq);
            let m = if f.len() <= limit {
                f.len() as int
            } else {
                limit
            };
            m > 0 && gap_exceeds_v(c0, f[m - 1].seq, threshold)
        }),
        None => false,
    }
}

/// Termination rank of the catch-up loop: the events still to fold in,
/// plus one while the loop has not decided it is caught up.
pub open spec fn catch_up_rank(
    log: Seq<ActivityEventV>,
    project_id: u128,
    cursor: Option<i64>,
    done: bool,
) -> int {
    events_after(log, project_id, cursor).len() + if done {
        0int
    } else {
        1int
    }
}

/// Every event of a scope page carries a sequence number of at least 1.
proof fn lemma_page_seqs_positive(
    log: Seq<ActivityEventV>,
    project_id: u128,
    cursor: Option<i64>,
)
    requires
        forall|i: int| 0 <= i < log.len() ==> (#[trigger] log[i].seq) >= 1,
    ensures
        forall|i: int|
            0 <= i < events_after(log, project_id, cursor).len() ==> (#[trigger] events_after(
                log,
                project_id,
                cursor,
            )[i].seq) >= 1,
{
    lemma_events_after_mem(log, project_id, cursor);
    let f = events_after(log, project_id, cursor);
    assert forall|i: int| 0 <= i < f.len() implies (#[trigger] f[i].seq) >= 1 by {
        assert(log.contains(f[i]));
        let j = choose|j: int| 0 <= j < log.len() && log[j] == f[i];
    }
}

/// Catch-up for one scope: page through the activity log after the cursor
/// and fold each event in; with no cursor, or when the backlog gap exceeds
/// the threshold, fall back to one bulk snapshot instead.  The outcome tag
/// says which path ended the run, so the threshold check cannot be
/// bypassed by a caller.
pub fn catch_up_project(
    replica: &mut Replica,
    store: &SharedTaskStore,
    config: &ShareConfig,
    remote_project_id: u128,
    last_seq: Option<i64>,
) -> (r: CatchUpOutcome)
    requires
        old(replica).wf(),
        store.wf(),
        old(replica)@.next_local_id + store@.log.len() + 0x2_0000_0000_0000_0000 < u128::MAX,
        match last_seq {
            Some(c) => c >= 0,
            None => true,
        },
        config.bulk_sync_threshold <= 0x7fff_ffff_ffff_ffff,
        config.activity_page_limit >= 1,
    ensures
        final(replica).wf(),
        match r {
            CatchUpOutcome::Paged(c) => {
                &&& final(replica)@ == apply_events_v(
                    old(replica)@,
                    events_after(store@.log, remote_project_id, last_seq),
                )
                &&& events_after(store@.log, remote_project_id, c) == Seq::<
                    ActivityEventV,
                >::empty()
                &&& c == (if events_after(store@.log, remote_project_id, last_seq).len() == 0 {
                    last_seq
                } else {
                    Some(events_after(store@.log, remote_project_id, last_seq).last().seq)
                })
            },
            CatchUpOutcome::Resynced(c) => {
                &&& resynced_scope(final(replica)@, store@, remote_project_id, c)
                &&& c == store_latest(store@.log)
                &&& events_after(store@.log, remote_project_id, c) == Seq::<
                    ActivityEventV,
                >::empty()
            },
        },
        // an absent cursor forces the snapshot path
        last_seq is None ==> r is Resynced,
        // a first page whose gap exceeds the threshold forces it too
        first_page_gap(
            store@.log,
            remote_project_id,
            last_seq,
            config.activity_page_limit as int,
            config.bulk_sync_threshold,
        ) ==> r is Resynced,
        // paged replay never hands back a cursor below the one given
        match (last_seq, r) {
            (Some(c0), CatchUpOutcome::Paged(c)) => c is Some && c->0 >= c0,
            _ => true,
        },
{
    let ghost r0 = old(replica)@;
    let ghost log = store@.log;
    let ghost f = events_after(log, remote_project_id, last_seq);
    proof {
        store.lemma_log_facts();
        crate::store::lemma_events_after_scope(log, remote_project_id, last_seq);
        lemma_page_seqs_positive(log, remote_project_id, last_seq);
    }
    let mut cursor = last_seq;
    let mut resynced = false;
    let ghost mut k: int = 0;

    // with no resumption point, a full bulk snapshot comes first
    if cursor.is_none() {
        let snap = store.bulk_fetch(remote_project_id);
        let snap_len = snap.tasks.len();
        proof {
            assert(snap.tasks@.len() == snap_len);
            replica.lemma_view_link_unique();
            lemma_snapshot_resync(replica@, store@, snap, remote_project_id);
        }
        replica.apply_snapshot(remote_project_id, &snap);
        cursor = snap.latest_seq;
        resynced = true;
        proof {
            match cursor {
                Some(l) => {
                    assert(l == log.last().seq);
                    lemma_events_after_empty_at_latest(log, remote_project_id, l);
                },
                None => {
                    assert(log.len() == 0);
                    assert(events_after(log, remote_project_id, cursor) =~= Seq::<
                        ActivityEventV,
                    >::empty());
                },
            }
        }
    }

    let mut done = false;
    while !done
        invariant
            replica.wf(),
            store.wf(),
            log == store@.log,
            f == events_after(log, remote_project_id, last_seq),
            log_sorted_v(log),
            forall|i: int| 0 <= i < log.len() ==> (#[trigger] log[i].seq) >= 1,
            forall|i: int| 0 <= i < f.len() ==> (#[trigger] f[i].seq) >= 1,
            config.bulk_sync_threshold <= 0x7fff_ffff_ffff_ffff,
            config.activity_page_limit >= 1,
            match cursor {
                Some(c) => c >= 0,
                None => true,
            },
            !resynced ==> {
                &&& 0 <= k <= f.len()
                &&& replica@ == apply_events_v(r0, f.take(k))
                &&& cursor == (if k == 0 {
                    last_seq
                } else {
                    Some(f[k - 1].seq)
                })
                &&& events_after(log, remote_project_id, cursor) == f.skip(k)
                &&& replica@.next_local_id + (f.len() - k) + 0x2_0000_0000_0000_0000
                    < u128::MAX
                &&& last_seq is Some
            },
            resynced ==> {
                &&& resynced_scope(replica@, store@, remote_project_id, cursor)
                &&& cursor == store_latest(log)
                &&& events_after(log, remote_project_id, cursor) == Seq::<
                    ActivityEventV,
                >::empty()
                &&& replica@.next_local_id < u128::MAX
            },
            done ==> events_after(log, remote_project_id, cursor) == Seq::<
                ActivityEventV,
            >::empty(),
            last_seq is None ==> resynced,
            first_page_gap(
                log,
                remote_project_id,
                last_seq,
                config.activity_page_limit as int,
                config.bulk_sync_threshold,
            ) ==> (resynced || (!done && k == 0)),
        decreases catch_up_rank(log, remote_project_id, cursor, done),
    {
        let events = store.fetch_since(remote_project_id, cursor, config.activity_page_limit);
        let ghost remaining = events_after(log, remote_project_id, cursor);
        if events.len() == 0 {
            proof {
                assert(evs_view(events@).len() == 0);
                if remaining.len() > config.activity_page_limit {
                    assert(evs_view(events@).len() == config.activity_page_limit);
                }
                assert(remaining.len() == 0);
                assert(remaining =~= Seq::<ActivityEventV>::empty());
            }
            done = true;
        } else {
            let page_len = events.len();
            let newest = events[page_len - 1].seq;
            proof {
                assert(evs_view(events@)[page_len - 1] == events@[page_len - 1]@);
            }
            let gap = match cursor {
                Some(prev) => gap_exceeds(prev, newest, config.bulk_sync_threshold),
                None => false,
            };
            if gap {
                // too far behind: one bounded bulk snapshot instead of replay
                let snap = store.bulk_fetch(remote_project_id);
                let snap_len = snap.tasks.len();
                proof {
                    assert(snap.tasks@.len() == snap_len);
                    replica.lemma_view_link_unique();
                    lemma_snapshot_resync(replica@, store@, snap, remote_project_id);
                }
                replica.apply_snapshot(remote_project_id, &snap);
                cursor = snap.latest_seq;
                resynced = true;
                proof {
                    match cursor {
                        Some(l) => {
                            assert(l == log.last().seq);
                            lemma_events_after_empty_at_latest(log, remote_project_id, l);
                        },
                        None => {
                            assert(log.len() == 0);
                            assert(events_after(log, remote_project_id, cursor) =~= Seq::<
                                ActivityEventV,
                            >::empty());
                        },
                    }
                    assert(remaining.len() >= 1);
                }
            } else {
                // fold the page in, in order
                proof {
                    assert(!resynced);
                    if k == 0 {
                        // the computed gap decided the first-page condition
                        assert(remaining == f);
                        let m = if f.len() <= config.activity_page_limit as int {
                            f.len() as int
                        } else {
                            config.activity_page_limit as int
                        };
                        assert(page_len as int == m);
                        assert(evs_view(events@)[page_len - 1] == events@[page_len - 1]@);
                        assert(newest == f[m - 1].seq);
                        assert(!first_page_gap(
                            log,
                            remote_project_id,
                            last_seq,
                            config.activity_page_limit as int,
                            config.bulk_sync_threshold,
                        ));
                    }
                }
                let mut i: usize = 0;
                while i < page_len
                    invariant
                        replica.wf(),
                        log == store@.log,
                        f == events_after(log, remote_project_id, last_seq),
                        forall|w: int| 0 <= w < f.len() ==> (#[trigger] f[w].seq) >= 1,
                        page_len == events@.len(),
                        i <= page_len,
                        0 <= k,
                        k + page_len <= f.len(),
                        evs_view(events@) == f.skip(k).take(page_len as int),
                        replica@ == apply_events_v(r0, f.take(k + i)),
                        cursor == (if k + i == 0 {
                            last_seq
                        } else {
                            Some(f[k + i - 1].seq)
                        }),
                        match cursor {
                            Some(c) => c >= 0,
                            None => true,
                        },
                        replica@.next_local_id + (f.len() - k - i) + 0x2_0000_0000_0000_0000
                            < u128::MAX,
                    decreases page_len - i,
                {
                    proof {
                        assert(evs_view(events@)[i as int] == events@[i as int]@);
                        assert(f.skip(k).take(page_len as int)[i as int] == f[k + i]);
                    }
                    replica.apply_event(&events[i]);
                    cursor = Some(events[i].seq);
                    proof {
                        assert(events@[i as int]@.seq == f[k + i].seq);
                        assert(f.take(k + i + 1).drop_last() =~= f.take(k + i));
                        assert(f.take(k + i + 1).last() == f[k + i]);
                        assert(replica@ == apply_events_v(r0, f.take(k + i + 1)));
                        assert(replica@.next_local_id <= apply_events_v(
                            r0,
                            f.take(k + i),
                        ).next_local_id + 1) by {
                            lemma_apply_event_alloc(
                                apply_events_v(r0, f.take(k + i)),
                                events@[i as int]@,
                            );
                        }
                    }
                    i = i + 1;
                }
                proof {
                    k = k + page_len as int;
                    assert(replica@ == apply_events_v(r0, f.take(k)));
                    assert(k >= 1);
                    assert(cursor == Some(f[k - 1].seq));
                    assert(f[k - 1].seq >= 1);
                    lemma_events_after_continue(log, remote_project_id, last_seq, k);
                    assert(events_after(log, remote_project_id, cursor) == f.skip(k));
                }
                if page_len < config.activity_page_limit {
                    proof {
                        // a short page means the whole backlog fit in it
                        if remaining.len() > config.activity_page_limit {
                            assert(evs_view(events@).len() == config.activity_page_limit);
                        }
                        assert(remaining.len() <= config.activity_page_limit);
                        assert(page_len as int == remaining.len());
                        assert(k == f.len());
                        assert(f.skip(k) =~= Seq::<ActivityEventV>::empty());
                    }
                    done = true;
                }
            }
        }
    }
    if resynced {
        CatchUpOutcome::Resynced(cursor)
    } else {
        proof {
            assert(events_after(log, remote_project_id, cursor) == f.skip(k));
            assert(f.skip(k).len() == 0);
            assert(k == f.len());
            assert(f.take(k) =~= f);
            if f.len() > 0 {
                assert(cursor == Some(f[f.len() - 1].seq));
                assert(f.last() == f[f.len() - 1]);
                crate::store::lemma_events_after_scope(log, remote_project_id, last_seq);
                assert(event_in_scope(f[f.len() - 1], remote_project_id, last_seq));
            }
        }
        CatchUpOutcome::Paged(cursor)
    }
}

/// After the newest sequence number of the log, nothing remains.
proof fn lemma_events_after_empty_at_latest(
    log: Seq<ActivityEventV>,
    project_id: u128,
    latest: i64,
)
    requires
        log.len() > 0,
        forall|i: int| 0 <= i < log.len() ==> (#[trigger] log[i].seq) <= latest,
    ensures
        events_after(log, project_id, Some(latest)) == Seq::<ActivityEventV>::empty(),
{
    lemma_events_after_none(log, project_id, latest);
}

/// One event application allocates at most one local id.
proof fn lemma_apply_event_alloc(r: crate::replica::ReplicaV, e: ActivityEventV)
    ensures
        crate::replica::apply_event_v(r, e).next_local_id <= r.next_local_id + 1,
{
}

} // verus!