//! What bringing the task pool up to date guarantees, whatever the pool and
//! the configuration.

use vstd::prelude::*;
use crate::config::SyncView;
use crate::path::same_path;
use crate::task::{
    outcome_in, SyncOutcome, Task, drop_configured, sync_outcomes, TaskView, can_start, configured, keep_configured, running, start_missing, task_matches, task_of,
    task_views,
};

verus! {

/// Two tasks are the same task when their paths name the same paths and
/// their addresses agree.
pub open spec fn same_task(a: TaskView, b: TaskView) -> bool {
    same_path(a.local_path, b.local_path) && same_path(a.remote_path, b.remote_path)
        && a.remote_address == b.remote_address
}

/// No two tasks of `pool` are the same task.
pub open spec fn distinct_tasks(pool: Seq<TaskView>) -> bool {
    forall|i: int, j: int|
        0 <= i < pool.len() && 0 <= j < pool.len() && i != j ==> !same_task(
            #[trigger] pool[i],
            #[trigger] pool[j],
        )
}

/// Every task of `pool` serves some sync of `syncs`.
pub open spec fn all_configured(pool: Seq<TaskView>, syncs: Seq<SyncView>) -> bool {
    forall|i: int| 0 <= i < pool.len() ==> configured(#[trigger] pool[i], syncs)
}

/// Every sync of `syncs` that a task can be started for is served by `pool`.
pub open spec fn all_served(pool: Seq<TaskView>, syncs: Seq<SyncView>) -> bool {
    forall|i: int| 0 <= i < syncs.len() && can_start(#[trigger] syncs[i]) ==> running(pool, syncs[i])
}

proof fn lemma_start_missing_extends(pool: Seq<TaskView>, syncs: Seq<SyncView>)
    ensures
        start_missing(pool, syncs).len() >= pool.len(),
        start_missing(pool, syncs).take(pool.len() as int) == pool,
        forall|i: int|
            pool.len() <= i < start_missing(pool, syncs).len() ==> exists|k: int|
                0 <= k < syncs.len() && #[trigger] start_missing(pool, syncs)[i] == task_of(
                    syncs[k],
                ),
    decreases syncs.len(),
{
    if syncs.len() == 0 {
        assert(pool.take(pool.len() as int) =~= pool);
    } else {
        let prev = start_missing(pool, syncs.drop_last());
        lemma_start_missing_extends(pool, syncs.drop_last());
        let r = start_missing(pool, syncs);
        if r != prev {
            assert(r == prev.push(task_of(syncs.last())));
            assert(r.take(pool.len() as int) =~= prev.take(pool.len() as int));
            assert forall|i: int| pool.len() <= i < r.len() implies exists|k: int|
                0 <= k < syncs.len() && #[trigger] r[i] == task_of(syncs[k]) by {
                if i < prev.len() {
                    let k = choose|k: int|
                        0 <= k < syncs.drop_last().len() && #[trigger] prev[i] == task_of(
                            syncs.drop_last()[k],
                        );
                    assert(r[i] == task_of(syncs[k]));
                } else {
                    assert(r[i] == task_of(syncs[syncs.len() - 1]));
                }
            }
        } else {
            assert forall|i: int| pool.len() <= i < r.len() implies exists|k: int|
                0 <= k < syncs.len() && #[trigger] r[i] == task_of(syncs[k]) by {
                let k = choose|k: int|
                    0 <= k < syncs.drop_last().len() && #[trigger] prev[i] == task_of(
                        syncs.drop_last()[k],
                    );
                assert(r[i] == task_of(syncs[k]));
            }
        }
    }
}

/// How many of `o` are `Started`.
pub open spec fn started_count(o: Seq<SyncOutcome>) -> nat
    decreases o.len(),
{
    if o.len() == 0 {
        0
    } else {
        started_count(o.drop_last()) + if o.last() == SyncOutcome::Started {
            1nat
        } else {
            0nat
        }
    }
}

/// Exactly one task is started for each sync whose outcome is `Started`,
/// and none for any other: the pool grows by the number of such syncs.
pub proof fn law_one_start_per_started_outcome(pool: Seq<TaskView>, syncs: Seq<SyncView>)
    ensures
        start_missing(pool, syncs).len() == pool.len() + started_count(sync_outcomes(pool, syncs)),
    decreases syncs.len(),
{
    if syncs.len() > 0 {
        law_one_start_per_started_outcome(pool, syncs.drop_last());
        let o = sync_outcomes(pool, syncs);
        assert(o.drop_last() =~= sync_outcomes(pool, syncs.drop_last()));
    }
}

/// A task started for a sync serves it.
pub proof fn law_started_task_serves_its_sync(s: SyncView)
    ensures
        task_matches(task_of(s), s),
{
}

/// After the pool is brought up to date with `syncs`, every task in it
/// serves some sync of `syncs`.
pub proof fn law_update_keeps_only_configured<H>(tasks: Seq<Task<H>>, syncs: Seq<SyncView>)
    ensures
        all_configured(start_missing(task_views(keep_configured(tasks, syncs)), syncs), syncs),
{
    let kept = task_views(keep_configured(tasks, syncs));
    lemma_filter_all_configured(tasks, syncs);
    lemma_start_missing_extends(kept, syncs);
    let r = start_missing(kept, syncs);
    assert forall|i: int| 0 <= i < r.len() implies configured(#[trigger] r[i], syncs) by {
        if i < kept.len() {
            assert(r[i] == r.take(kept.len() as int)[i]);
        } else {
            let k = choose|k: int| 0 <= k < syncs.len() && #[trigger] r[i] == task_of(syncs[k]);
            assert(task_matches(r[i], syncs[k]));
        }
    }
}

proof fn lemma_filter_all_configured<H>(tasks: Seq<Task<H>>, syncs: Seq<SyncView>)
    ensures
        all_configured(task_views(keep_configured(tasks, syncs)), syncs),
{
    let pred = |t: Task<H>| configured(t@, syncs);
    let kept = keep_configured(tasks, syncs);
    assert forall|i: int| 0 <= i < task_views(kept).len() implies configured(
        #[trigger] task_views(kept)[i],
        syncs,
    ) by {
        tasks.lemma_filter_pred(pred, i);
    }
}

/// After the pool is brought up to date with `syncs`, every sync of
/// `syncs` whose local path has a parent directory is served by a task.
pub proof fn law_update_serves_every_startable_sync(pool: Seq<TaskView>, syncs: Seq<SyncView>)
    ensures
        all_served(start_missing(pool, syncs), syncs),
    decreases syncs.len(),
{
    if syncs.len() > 0 {
        let prev = start_missing(pool, syncs.drop_last());
        let r = start_missing(pool, syncs);
        law_update_serves_every_startable_sync(pool, syncs.drop_last());
        assert forall|i: int| 0 <= i < syncs.len() && can_start(#[trigger] syncs[i]) implies running(
            r,
            syncs[i],
        ) by {
            if i < syncs.len() - 1 {
                assert(syncs.drop_last()[i] == syncs[i]);
                assert(running(prev, syncs[i]));
                let j = choose|j: int| 0 <= j < prev.len() && task_matches(#[trigger] prev[j], syncs[i]);
                if r != prev {
                    assert(r[j] == prev[j]);
                }
                assert(task_matches(r[j], syncs[i]));
            } else if !running(prev, syncs[i]) {
                assert(r[r.len() - 1] == task_of(syncs[i]));
                assert(task_matches(r[r.len() - 1], syncs[i]));
            } else {
            }
        }
    }
}

/// Bringing the pool up to date keeps no two tasks the same task.
pub proof fn law_update_keeps_tasks_distinct<H>(tasks: Seq<Task<H>>, syncs: Seq<SyncView>)
    requires
        distinct_tasks(task_views(tasks)),
    ensures
        distinct_tasks(start_missing(task_views(keep_configured(tasks, syncs)), syncs)),
{
    lemma_filter_keeps_distinct(tasks, |t: Task<H>| configured(t@, syncs));
    lemma_start_missing_keeps_distinct(task_views(keep_configured(tasks, syncs)), syncs);
}

proof fn lemma_filter_keeps_distinct<H>(tasks: Seq<Task<H>>, pred: spec_fn(Task<H>) -> bool)
    requires
        distinct_tasks(task_views(tasks)),
    ensures
        distinct_tasks(task_views(tasks.filter(pred))),
    decreases tasks.len(),
{
    reveal(Seq::filter);
    if tasks.len() > 0 {
        let init = tasks.drop_last();
        assert(distinct_tasks(task_views(init))) by {
            assert forall|i: int, j: int|
                0 <= i < task_views(init).len() && 0 <= j < task_views(init).len() && i != j
                    implies !same_task(
                #[trigger] task_views(init)[i],
                #[trigger] task_views(init)[j],
            ) by {
                assert(task_views(init)[i] == task_views(tasks)[i]);
                assert(task_views(init)[j] == task_views(tasks)[j]);
            }
        }
        lemma_filter_keeps_distinct(init, pred);
        if pred(tasks.last()) {
            let f = init.filter(pred);
            let g = f.push(tasks.last());
            assert forall|i: int, j: int|
                0 <= i < task_views(g).len() && 0 <= j < task_views(g).len() && i != j
                    implies !same_task(#[trigger] task_views(g)[i], #[trigger] task_views(g)[j]) by {
                if i < f.len() && j < f.len() {
                    assert(task_views(g)[i] == task_views(f)[i]);
                    assert(task_views(g)[j] == task_views(f)[j]);
                } else if i < f.len() {
                    assert(f.contains(f[i]));
                    init.lemma_filter_contains_rev(pred, f[i]);
                    let k = choose|k: int| 0 <= k < init.len() && init[k] == f[i];
                    assert(tasks[k] == init[k]);
                    assert(task_views(tasks)[k] == task_views(g)[i]);
                    assert(task_views(tasks)[tasks.len() - 1] == task_views(g)[j]);
                } else if j < f.len() {
                    assert(f.contains(f[j]));
                    init.lemma_filter_contains_rev(pred, f[j]);
                    let k = choose|k: int| 0 <= k < init.len() && init[k] == f[j];
                    assert(tasks[k] == init[k]);
                    assert(task_views(tasks)[k] == task_views(g)[j]);
                    assert(task_views(tasks)[tasks.len() - 1] == task_views(g)[i]);
                }
            }
        }
    }
}

proof fn lemma_start_missing_keeps_distinct(pool: Seq<TaskView>, syncs: Seq<SyncView>)
    requires
        distinct_tasks(pool),
    ensures
        distinct_tasks(start_missing(pool, syncs)),
    decreases syncs.len(),
{
    if syncs.len() > 0 {
        let prev = start_missing(pool, syncs.drop_last());
        lemma_start_missing_keeps_distinct(pool, syncs.drop_last());
        let r = start_missing(pool, syncs);
        let s = syncs.last();
        if r != prev {
            assert forall|i: int, j: int|
                0 <= i < r.len() && 0 <= j < r.len() && i != j implies !same_task(
                #[trigger] r[i],
                #[trigger] r[j],
            ) by {
                if i < prev.len() && j < prev.len() {
                    assert(r[i] == prev[i] && r[j] == prev[j]);
                } else if i < prev.len() {
                    assert(r[i] == prev[i]);
                    assert(!task_matches(prev[i], s));
                } else {
                    assert(r[j] == prev[j]);
                    assert(!task_matches(prev[j], s));
                }
            }
        }
    }
}

proof fn lemma_filter_all<H>(tasks: Seq<Task<H>>, pred: spec_fn(Task<H>) -> bool)
    requires
        forall|i: int| 0 <= i < tasks.len() ==> pred(#[trigger] tasks[i]),
    ensures
        tasks.filter(pred) == tasks,
    decreases tasks.len(),
{
    reveal(Seq::filter);
    if tasks.len() > 0 {
        let init = tasks.drop_last();
        assert forall|i: int| 0 <= i < init.len() implies pred(#[trigger] init[i]) by {
            assert(init[i] == tasks[i]);
        }
        lemma_filter_all(init, pred);
        assert(tasks.filter(pred) =~= tasks);
    }
}

proof fn lemma_filter_none<H>(tasks: Seq<Task<H>>, pred: spec_fn(Task<H>) -> bool)
    requires
        forall|i: int| 0 <= i < tasks.len() ==> !pred(#[trigger] tasks[i]),
    ensures
        tasks.filter(pred).len() == 0,
    decreases tasks.len(),
{
    reveal(Seq::filter);
    if tasks.len() > 0 {
        let init = tasks.drop_last();
        assert forall|i: int| 0 <= i < init.len() implies !pred(#[trigger] init[i]) by {
            assert(init[i] == tasks[i]);
        }
        lemma_filter_none(init, pred);
    }
}

proof fn lemma_served_pool_is_complete(pool: Seq<TaskView>, syncs: Seq<SyncView>)
    requires
        all_served(pool, syncs),
    ensures
        start_missing(pool, syncs) == pool,
        forall|i: int|
            0 <= i < syncs.len() ==> #[trigger] sync_outcomes(pool, syncs)[i]
                != SyncOutcome::Started,
        sync_outcomes(pool, syncs).len() == syncs.len(),
    decreases syncs.len(),
{
    if syncs.len() > 0 {
        let init = syncs.drop_last();
        assert forall|i: int| 0 <= i < init.len() && can_start(#[trigger] init[i]) implies running(
            pool,
            init[i],
        ) by {
            assert(init[i] == syncs[i]);
        }
        lemma_served_pool_is_complete(pool, init);
        let last = syncs.len() - 1;
        assert(syncs.last() == syncs[last]);
        let o = sync_outcomes(pool, syncs);
        assert forall|i: int| 0 <= i < syncs.len() implies #[trigger] o[i]
            != SyncOutcome::Started by {
            if i < last {
                assert(o[i] == sync_outcomes(pool, init)[i]);
            }
        }
    }
}

/// Bringing the pool up to date a second time with the same syncs takes
/// no task out and starts none: the pool stays as it is.
pub proof fn law_update_is_idempotent<H>(tasks: Seq<Task<H>>, updated: Seq<Task<H>>, syncs: Seq<SyncView>)
    requires
        task_views(updated) == start_missing(task_views(keep_configured(tasks, syncs)), syncs),
    ensures
        keep_configured(updated, syncs) == updated,
        drop_configured(updated, syncs).len() == 0,
        start_missing(task_views(updated), syncs) == task_views(updated),
        sync_outcomes(task_views(updated), syncs).len() == syncs.len(),
        forall|i: int|
            0 <= i < syncs.len() ==> #[trigger] sync_outcomes(task_views(updated), syncs)[i]
                != SyncOutcome::Started,
{
    law_update_keeps_only_configured(tasks, syncs);
    law_update_serves_every_startable_sync(task_views(keep_configured(tasks, syncs)), syncs);
    assert forall|i: int| 0 <= i < updated.len() implies configured(#[trigger] updated[i]@, syncs) by {
        assert(task_views(updated)[i] == updated[i]@);
    }
    lemma_filter_all(updated, |t: Task<H>| configured(t@, syncs));
    lemma_filter_none(updated, |t: Task<H>| !configured(t@, syncs));
    lemma_served_pool_is_complete(task_views(updated), syncs);
}

/// After an update, every task in the pool, kept or started, has the local
/// path, the remote path and the whole remote address (IP, port and, for
/// IPv6, flow label and scope) of some sync of the new configuration: a task
/// whose destination changed in any part does not survive the update.
pub proof fn law_updated_pool_matches_destinations<H>(tasks: Seq<Task<H>>, syncs: Seq<SyncView>)
    ensures
        ({
            let pool = start_missing(task_views(keep_configured(tasks, syncs)), syncs);
            forall|k: int|
                0 <= k < pool.len() ==> exists|j: int|
                    0 <= j < syncs.len() && same_path(#[trigger] pool[k].local_path, syncs[j].local_path)
                        && same_path(pool[k].remote_path, syncs[j].remote_path)
                        && pool[k].remote_address == syncs[j].remote_addr
        }),
{
    law_update_keeps_only_configured(tasks, syncs);
    let pool = start_missing(task_views(keep_configured(tasks, syncs)), syncs);
    assert forall|k: int| 0 <= k < pool.len() implies exists|j: int|
        0 <= j < syncs.len() && same_path(#[trigger] pool[k].local_path, syncs[j].local_path)
            && same_path(pool[k].remote_path, syncs[j].remote_path) && pool[k].remote_address
            == syncs[j].remote_addr by {
        assert(configured(pool[k], syncs));
        let j = choose|j: int| 0 <= j < syncs.len() && task_matches(pool[k], #[trigger] syncs[j]);
        assert(task_matches(pool[k], syncs[j]));
    }
}

/// A task whose local path, remote path or remote address differs from those
/// of every sync is taken out of the pool by an update.
pub proof fn law_update_removes_changed_destination<H>(tasks: Seq<Task<H>>, syncs: Seq<SyncView>, i: int)
    requires
        0 <= i < tasks.len(),
        forall|j: int|
            0 <= j < syncs.len() ==> !(same_path(tasks[i]@.local_path, #[trigger] syncs[j].local_path)
                && same_path(tasks[i]@.remote_path, syncs[j].remote_path)
                && tasks[i]@.remote_address == syncs[j].remote_addr),
    ensures
        drop_configured(tasks, syncs).contains(tasks[i]),
{
    assert(!configured(tasks[i]@, syncs)) by {
        if configured(tasks[i]@, syncs) {
            let j = choose|j: int| 0 <= j < syncs.len() && task_matches(tasks[i]@, #[trigger] syncs[j]);
            assert(task_matches(tasks[i]@, syncs[j]));
        }
    }
    tasks.lemma_filter_contains(|t: Task<H>| !configured(t@, syncs), i);
}

/// A sync counts as already running only when some task of the pool has its
/// local path, its remote path and its whole remote address.
pub proof fn law_already_running_means_same_destination(pool: Seq<TaskView>, s: SyncView)
    ensures
        outcome_in(pool, s) == SyncOutcome::AlreadyRunning ==> exists|j: int|
            0 <= j < pool.len() && same_path(#[trigger] pool[j].local_path, s.local_path)
                && same_path(pool[j].remote_path, s.remote_path) && pool[j].remote_address
                == s.remote_addr,
{
    if outcome_in(pool, s) == SyncOutcome::AlreadyRunning {
        let j = choose|j: int| 0 <= j < pool.len() && task_matches(#[trigger] pool[j], s);
        assert(task_matches(pool[j], s));
    }
}

} // verus!
