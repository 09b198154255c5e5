//! The pool of running sync tasks, and how it follows the configuration.

use vstd::prelude::*;
use crate::addr::RemoteAddr;
use crate::config::{SyncConfig, SyncView, sync_views};
use crate::path::{FsPath, path_parent, same_path};

verus! {

/// What identifies a running sync task: its local path, the remote path and
/// the remote address.
pub struct TaskView {
    pub local_path: Seq<char>,
    pub remote_path: Seq<char>,
    pub remote_address: RemoteAddr,
}

/// A task serves a sync when the paths name the same paths and the
/// addresses agree.
pub open spec fn task_matches(t: TaskView, s: SyncView) -> bool {
    same_path(t.local_path, s.local_path) && same_path(t.remote_path, s.remote_path)
        && t.remote_address == s.remote_addr
}

/// The task that a sync starts.
pub open spec fn task_of(s: SyncView) -> TaskView {
    TaskView { local_path: s.local_path, remote_path: s.remote_path, remote_address: s.remote_addr }
}

/// Some sync of `syncs` is served by `t`.
pub open spec fn configured(t: TaskView, syncs: Seq<SyncView>) -> bool {
    exists|i: int| 0 <= i < syncs.len() && task_matches(t, #[trigger] syncs[i])
}

/// Some task of `pool` serves `s`.
pub open spec fn running(pool: Seq<TaskView>, s: SyncView) -> bool {
    exists|j: int| 0 <= j < pool.len() && task_matches(#[trigger] pool[j], s)
}

/// A task can be started for `s` when its local path has a parent directory
/// to watch.
pub open spec fn can_start(s: SyncView) -> bool {
    path_parent(s.local_path) is Some
}

/// The pool after the syncs of `syncs` are gone through in order, and a task
/// is started for each one that no task serves yet and that can be started.
pub open spec fn start_missing(pool: Seq<TaskView>, syncs: Seq<SyncView>) -> Seq<TaskView>
    decreases syncs.len(),
{
    if syncs.len() == 0 {
        pool
    } else {
        let prev = start_missing(pool, syncs.drop_last());
        let s = syncs.last();
        if running(prev, s) || !can_start(s) {
            prev
        } else {
            prev.push(task_of(s))
        }
    }
}

/// What happened to one sync while the pool was brought up to date.
#[derive(Clone, Copy, Debug, PartialEq, Eq, Structural)]
pub enum SyncOutcome {
    /// A task already served it.
    AlreadyRunning,
    /// A new task was started for it.
    Started,
    /// Its local path has no parent directory, so no task could be made.
    NoParent,
}

pub open spec fn outcome_in(pool: Seq<TaskView>, s: SyncView) -> SyncOutcome {
    if running(pool, s) {
        SyncOutcome::AlreadyRunning
    } else if !can_start(s) {
        SyncOutcome::NoParent
    } else {
        SyncOutcome::Started
    }
}

/// The outcome of each sync of `syncs`, gone through in order from `pool`.
pub open spec fn sync_outcomes(pool: Seq<TaskView>, syncs: Seq<SyncView>) -> Seq<SyncOutcome>
    decreases syncs.len(),
{
    if syncs.len() == 0 {
        Seq::empty()
    } else {
        sync_outcomes(pool, syncs.drop_last()).push(
            outcome_in(start_missing(pool, syncs.drop_last()), syncs.last()),
        )
    }
}

/// What a new task is started with: the directory its watcher watches, the
/// path below it that is synced, and where that path is copied to.
pub struct TaskLaunch {
    pub local_parent: FsPath,
    pub local_path: FsPath,
    pub remote_path: FsPath,
    pub remote_address: RemoteAddr,
}

/// The task that `launch` starts.
pub open spec fn launch_task(launch: TaskLaunch) -> TaskView {
    TaskView {
        local_path: launch.local_path@,
        remote_path: launch.remote_path@,
        remote_address: launch.remote_address,
    }
}

/// `launch` starts the task `t`, watching the parent of its local path.
pub open spec fn launch_for(launch: TaskLaunch, t: TaskView) -> bool {
    launch_task(launch) == t && path_parent(t.local_path) == Some(launch.local_parent@)
}

pub open spec fn launch_tasks(v: Seq<TaskLaunch>) -> Seq<TaskView> {
    v.map_values(|l: TaskLaunch| launch_task(l))
}

impl TaskLaunch {
    /// What the task for `config` is started with: its watcher watches the
    /// parent directory of the local path, which must have one.
    pub fn for_sync(config: &SyncConfig) -> (r: Result<TaskLaunch, TaskError>)
        ensures
            match r {
                Ok(l) => can_start(config@) && launch_for(l, task_of(config@)),
                Err(e) => !can_start(config@) && e == TaskError::NoParent,
            },
    {
        let local_parent = match config.local_path.parent() {
            Some(p) => p,
            None => {
                return Err(TaskError::NoParent);
            },
        };
        Ok(
            TaskLaunch {
                local_parent,
                local_path: config.local_path.duplicate(),
                remote_path: config.remote_path.duplicate(),
                remote_address: config.remote_addr,
            },
        )
    }

    /// Whether the task this starts serves `sync`.
    pub fn serves(&self, sync: &SyncConfig) -> (r: bool)
        ensures
            r == task_matches(launch_task(*self), sync@),
    {
        self.local_path.same_as(&sync.local_path) && self.remote_path.same_as(&sync.remote_path)
            && self.remote_address.same_as(&sync.remote_addr)
    }
}

/// Why a task could not be made.
#[derive(Clone, Copy, Debug, PartialEq, Eq, Structural)]
pub enum TaskError {
    NoParent,
}

impl TaskError {
    /// The text that describes the error.
    pub fn message(&self) -> (r: String)
        ensures
            r@ == "no parent found for local path"@,
    {
        String::from_str("no parent found for local path")
    }
}

/// A running sync task: the handle of its watcher and what it syncs.
pub struct Task<H> {
    handle: H,
    local_path: FsPath,
    remote_path: FsPath,
    remote_address: RemoteAddr,
}

impl<H> View for Task<H> {
    type V = TaskView;

    closed spec fn view(&self) -> TaskView {
        TaskView {
            local_path: self.local_path@,
            remote_path: self.remote_path@,
            remote_address: self.remote_address,
        }
    }
}

impl<H> Task<H> {
    pub closed spec fn handle_of(self) -> H {
        self.handle
    }

    /// The task that `launch` started, with the handle of its watcher.
    pub fn new(launch: TaskLaunch, handle: H) -> (t: Task<H>)
        ensures
            t@ == launch_task(launch),
            t.handle_of() == handle,
    {
        Task {
            handle,
            local_path: launch.local_path,
            remote_path: launch.remote_path,
            remote_address: launch.remote_address,
        }
    }

    /// The handle of the task's watcher.
    pub fn handle(&self) -> (h: &H)
        ensures
            *h == self.handle_of(),
    {
        &self.handle
    }

    /// Gives up the task for its watcher's handle.
    pub fn into_handle(self) -> (h: H)
        ensures
            h == self.handle_of(),
    {
        self.handle
    }

    pub fn local_path(&self) -> (p: &FsPath)
        ensures
            p@ == self@.local_path,
    {
        &self.local_path
    }

    pub fn remote_path(&self) -> (p: &FsPath)
        ensures
            p@ == self@.remote_path,
    {
        &self.remote_path
    }

    pub fn remote_address(&self) -> (a: RemoteAddr)
        ensures
            a == self@.remote_address,
    {
        self.remote_address
    }

    /// Whether the task serves `sync`: same paths, same address.
    pub fn matches(&self, sync: &SyncConfig) -> (r: bool)
        ensures
            r == task_matches(self@, sync@),
    {
        self.local_path.same_as(&sync.local_path) && self.remote_path.same_as(&sync.remote_path)
            && self.remote_address.same_as(&sync.remote_addr)
    }

    /// Whether the task serves any sync of `syncs`.
    pub fn matches_any(&self, syncs: &Vec<SyncConfig>) -> (r: bool)
        ensures
            r == configured(self@, sync_views(syncs@)),
    {
        let ghost sv = sync_views(syncs@);
        let mut i: usize = 0;
        while i < syncs.len()
            invariant
                sv == sync_views(syncs@),
                0 <= i <= syncs.len(),
                forall|j: int| 0 <= j < i ==> !task_matches(self@, #[trigger] sv[j]),
            decreases syncs.len() - i,
        {
            if self.matches(&syncs[i]) {
                assert(task_matches(self@, sv[i as int]));
                return true;
            }
            i = i + 1;
        }
        false
    }
}

pub open spec fn task_views<H>(ts: Seq<Task<H>>) -> Seq<TaskView> {
    ts.map_values(|t: Task<H>| t@)
}

/// The tasks of `ts` that some sync of `syncs` is served by, in order.
pub open spec fn keep_configured<H>(ts: Seq<Task<H>>, syncs: Seq<SyncView>) -> Seq<Task<H>> {
    ts.filter(|t: Task<H>| configured(t@, syncs))
}

/// The tasks of `ts` that no sync of `syncs` is served by, in order.
pub open spec fn drop_configured<H>(ts: Seq<Task<H>>, syncs: Seq<SyncView>) -> Seq<Task<H>> {
    ts.filter(|t: Task<H>| !configured(t@, syncs))
}

/// The tasks to start for a list of syncs, in order, and what happened to
/// each sync.
pub struct StartPlan {
    pub launches: Vec<TaskLaunch>,
    pub outcomes: Vec<SyncOutcome>,
}

/// What bringing the pool up to date did: the tasks taken out of the pool,
/// whose watchers are to be stopped, the tasks to start, in order, and what
/// happened to each sync.
pub struct PoolUpdate<H> {
    pub removed: Vec<Task<H>>,
    pub launches: Vec<TaskLaunch>,
    pub outcomes: Vec<SyncOutcome>,
}

/// Every launch of `v` watches the parent of its local path.
pub open spec fn launches_well_formed(v: Seq<TaskLaunch>) -> bool {
    forall|i: int| 0 <= i < v.len() ==> launch_for(#[trigger] v[i], launch_task(v[i]))
}

proof fn lemma_running_concat(a: Seq<TaskView>, b: Seq<TaskView>, s: SyncView)
    ensures
        running(a + b, s) == (running(a, s) || running(b, s)),
{
    if running(a + b, s) {
        let j = choose|j: int| 0 <= j < (a + b).len() && task_matches(#[trigger] (a + b)[j], s);
        if j < a.len() {
            assert(a[j] == (a + b)[j]);
        } else {
            assert(b[j - a.len()] == (a + b)[j]);
        }
    }
    if running(a, s) {
        let j = choose|j: int| 0 <= j < a.len() && task_matches(#[trigger] a[j], s);
        assert((a + b)[j] == a[j]);
    }
    if running(b, s) {
        let j = choose|j: int| 0 <= j < b.len() && task_matches(#[trigger] b[j], s);
        assert((a + b)[a.len() + j] == b[j]);
    }
}

/// Whether some launch of `launches` starts a task that serves `sync`.
fn launches_serve(launches: &Vec<TaskLaunch>, sync: &SyncConfig) -> (r: bool)
    ensures
        r == running(launch_tasks(launches@), sync@),
{
    let ghost lv = launch_tasks(launches@);
    let mut i: usize = 0;
    while i < launches.len()
        invariant
            lv == launch_tasks(launches@),
            0 <= i <= launches.len(),
            forall|j: int| 0 <= j < i ==> !task_matches(#[trigger] lv[j], sync@),
        decreases launches.len() - i,
    {
        if launches[i].serves(sync) {
            assert(task_matches(lv[i as int], sync@));
            return true;
        }
        i = i + 1;
    }
    false
}

/// The running sync tasks.
pub struct TaskPool<H> {
    tasks: Vec<Task<H>>,
}

impl<H> View for TaskPool<H> {
    type V = Seq<TaskView>;

    closed spec fn view(&self) -> Seq<TaskView> {
        task_views(self.tasks@)
    }
}

impl<H> TaskPool<H> {
    pub closed spec fn tasks_of(self) -> Seq<Task<H>> {
        self.tasks@
    }

    /// The pool's value is the value of its tasks, in order.
    pub proof fn lemma_view(self)
        ensures
            self@ == task_views(self.tasks_of()),
    {
    }

    /// The pool without tasks.
    pub fn new() -> (p: TaskPool<H>)
        ensures
            p.tasks_of().len() == 0,
            p@.len() == 0,
    {
        TaskPool { tasks: Vec::new() }
    }

    pub fn len(&self) -> (n: usize)
        ensures
            n == self.tasks_of().len(),
            n == self@.len(),
    {
        self.tasks.len()
    }

    /// The task at position `i`.
    pub fn get(&self, i: usize) -> (t: &Task<H>)
        requires
            i < self.tasks_of().len(),
        ensures
            *t == self.tasks_of()[i as int],
            t@ == self@[i as int],
    {
        &self.tasks[i]
    }

    /// Whether some task of the pool serves `sync`.
    pub fn serves(&self, sync: &SyncConfig) -> (r: bool)
        ensures
            r == running(self@, sync@),
    {
        let ghost pv = self@;
        let mut i: usize = 0;
        while i < self.tasks.len()
            invariant
                pv == task_views(self.tasks@),
                0 <= i <= self.tasks.len(),
                forall|j: int| 0 <= j < i ==> !task_matches(#[trigger] pv[j], sync@),
            decreases self.tasks.len() - i,
        {
            if self.tasks[i].matches(sync) {
                assert(task_matches(pv[i as int], sync@));
                return true;
            }
            i = i + 1;
        }
        false
    }

    /// Takes out of the pool, in order, the tasks that no sync of `syncs`
    /// is served by, and gives them back.
    pub fn remove_unconfigured(&mut self, syncs: &Vec<SyncConfig>) -> (removed: Vec<Task<H>>)
        ensures
            final(self).tasks_of() == keep_configured(old(self).tasks_of(), sync_views(syncs@)),
            removed@ == drop_configured(old(self).tasks_of(), sync_views(syncs@)),
    {
        let ghost sv = sync_views(syncs@);
        let ghost orig = self.tasks@;
        let mut rest: Vec<Task<H>> = Vec::new();
        std::mem::swap(&mut rest, &mut self.tasks);
        let mut kept: Vec<Task<H>> = Vec::new();
        let mut removed: Vec<Task<H>> = Vec::new();
        let ghost mut k: int = 0;
        assert(orig.take(0) =~= Seq::<Task<H>>::empty());
        assert(orig.subrange(0, orig.len() as int) =~= orig);
        while rest.len() > 0
            invariant
                sv == sync_views(syncs@),
                0 <= k <= orig.len(),
                rest@ == orig.subrange(k, orig.len() as int),
                kept@ == keep_configured(orig.take(k), sv),
                removed@ == drop_configured(orig.take(k), sv),
            decreases rest.len(),
        {
            let t = rest.remove(0);
            let ghost next = orig.take(k + 1);
            assert(next.drop_last() =~= orig.take(k));
            assert(next.last() == t);
            let ghost keep_pred = |x: Task<H>| configured(x@, sv);
            let ghost drop_pred = |x: Task<H>| !configured(x@, sv);
            reveal(Seq::filter);
            assert(keep_configured(next, sv) == next.filter(keep_pred));
            assert(drop_configured(next, sv) == next.filter(drop_pred));
            assert(keep_configured(orig.take(k), sv) == orig.take(k).filter(keep_pred));
            assert(drop_configured(orig.take(k), sv) == orig.take(k).filter(drop_pred));
            if t.matches_any(syncs) {
                assert(next.filter(keep_pred) == orig.take(k).filter(keep_pred).push(t));
                assert(next.filter(drop_pred) == orig.take(k).filter(drop_pred));
                kept.push(t);
            } else {
                assert(next.filter(keep_pred) == orig.take(k).filter(keep_pred));
                assert(next.filter(drop_pred) == orig.take(k).filter(drop_pred).push(t));
                removed.push(t);
            }
            proof {
                k = k + 1;
            }
            assert(rest@ =~= orig.subrange(k, orig.len() as int));
        }
        assert(orig.take(k) =~= orig);
        self.tasks = kept;
        removed
    }

    /// Goes through `syncs` in order and plans a task for each sync that
    /// neither a task of the pool nor a task planned before serves, where
    /// its local path has a parent; says for each sync what happened to it.
    /// The pool followed by the planned tasks is the pool that starting
    /// missing tasks gives.
    pub fn plan_starts(&self, syncs: &Vec<SyncConfig>) -> (plan: StartPlan)
        ensures
            self@ + launch_tasks(plan.launches@) == start_missing(self@, sync_views(syncs@)),
            launches_well_formed(plan.launches@),
            plan.outcomes@ == sync_outcomes(self@, sync_views(syncs@)),
    {
        let ghost sv = sync_views(syncs@);
        let ghost pool0 = self@;
        let mut launches: Vec<TaskLaunch> = Vec::new();
        let mut outcomes: Vec<SyncOutcome> = Vec::new();
        let mut i: usize = 0;
        assert(sv.take(0) =~= Seq::<SyncView>::empty());
        assert(pool0 + launch_tasks(launches@) =~= pool0);
        while i < syncs.len()
            invariant
                sv == sync_views(syncs@),
                pool0 == self@,
                0 <= i <= syncs.len(),
                pool0 + launch_tasks(launches@) == start_missing(pool0, sv.take(i as int)),
                launches_well_formed(launches@),
                outcomes@ == sync_outcomes(pool0, sv.take(i as int)),
            decreases syncs.len() - i,
        {
            let ghost next = sv.take(i as int + 1);
            assert(next.drop_last() =~= sv.take(i as int));
            assert(next.last() == syncs@[i as int]@);
            let sync = &syncs[i];
            proof {
                lemma_running_concat(pool0, launch_tasks(launches@), sync@);
            }
            let outcome = if self.serves(sync) || launches_serve(&launches, sync) {
                SyncOutcome::AlreadyRunning
            } else {
                match TaskLaunch::for_sync(sync) {
                    Ok(launch) => {
                        let ghost before = launches@;
                        launches.push(launch);
                        assert(launch_tasks(launches@) =~= launch_tasks(before).push(
                            launch_task(launch),
                        ));
                        assert(pool0 + launch_tasks(launches@) =~= (pool0 + launch_tasks(
                            before,
                        )).push(launch_task(launch)));
                        assert forall|j: int| 0 <= j < launches@.len() implies launch_for(
                            #[trigger] launches@[j],
                            launch_task(launches@[j]),
                        ) by {
                            if j < before.len() {
                                assert(launches@[j] == before[j]);
                            }
                        }
                        SyncOutcome::Started
                    },
                    Err(_) => SyncOutcome::NoParent,
                }
            };
            outcomes.push(outcome);
            i = i + 1;
        }
        assert(sv.take(syncs.len() as int) =~= sv);
        StartPlan { launches, outcomes }
    }

    /// Puts into the pool the task that `launch` started, with the handle of
    /// its watcher.
    pub fn add(&mut self, launch: TaskLaunch, handle: H)
        ensures
            final(self).tasks_of().len() == old(self).tasks_of().len() + 1,
            final(self).tasks_of().take(old(self).tasks_of().len() as int) == old(
                self,
            ).tasks_of(),
            final(self).tasks_of().last()@ == launch_task(launch),
            final(self).tasks_of().last().handle_of() == handle,
            final(self)@ == old(self)@.push(launch_task(launch)),
    {
        let ghost before = self.tasks@;
        self.tasks.push(Task::new(launch, handle));
        assert(self.tasks@.take(before.len() as int) =~= before);
        assert(task_views(self.tasks@) =~= task_views(before).push(launch_task(launch)));
    }

    /// Brings the pool up to date with `syncs`: takes out the tasks that no
    /// sync is served by, then plans a task for each sync that no remaining
    /// or planned task serves and whose local path has a parent. Gives back
    /// the tasks taken out, whose watchers are to be stopped, the tasks to
    /// start, which go into the pool with [`TaskPool::add`] in their order,
    /// and what happened to each sync.
    pub fn update(&mut self, syncs: &Vec<SyncConfig>) -> (r: PoolUpdate<H>)
        ensures
            ({
                let sv = sync_views(syncs@);
                let kept = keep_configured(old(self).tasks_of(), sv);
                &&& final(self).tasks_of() == kept
                &&& r.removed@ == drop_configured(old(self).tasks_of(), sv)
                &&& task_views(kept) + launch_tasks(r.launches@) == start_missing(
                    task_views(kept),
                    sv,
                )
                &&& launches_well_formed(r.launches@)
                &&& r.outcomes@ == sync_outcomes(task_views(kept), sv)
            }),
    {
        let removed = self.remove_unconfigured(syncs);
        let plan = self.plan_starts(syncs);
        PoolUpdate { removed, launches: plan.launches, outcomes: plan.outcomes }
    }
}

} // verus!
