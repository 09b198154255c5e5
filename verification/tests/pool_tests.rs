use mane::addr::RemoteAddr;
use mane::config::SyncConfig;
use mane::path::FsPath;
use mane::task::{PoolUpdate, SyncOutcome, Task, TaskError, TaskLaunch, TaskPool};

fn sync(local: &str, remote: &str, port: u16) -> SyncConfig {
    SyncConfig::new(
        FsPath::from_text(local),
        FsPath::from_text(remote),
        RemoteAddr::V4 { ip4: 0x0a00_0001, port },
    )
}

/// Brings the pool up to date, starting each planned task with the next
/// handle number; gives back the update and the launches as text.
fn apply(pool: &mut TaskPool<usize>, next: &mut usize, syncs: &Vec<SyncConfig>) -> (PoolUpdate<usize>, Vec<(String, String)>) {
    let mut r = pool.update(syncs);
    let launches = std::mem::take(&mut r.launches);
    let mut seen = Vec::new();
    for l in launches {
        seen.push((l.local_parent.as_str().to_string(), l.local_path.as_str().to_string()));
        *next += 1;
        pool.add(l, *next);
    }
    (r, seen)
}

fn local_paths(pool: &TaskPool<usize>) -> Vec<String> {
    (0..pool.len()).map(|i| pool.get(i).local_path().as_str().to_string()).collect()
}

#[test]
fn new_syncs_start_tasks_on_their_parent_directories() {
    let mut next = 0;
    let mut pool: TaskPool<usize> = TaskPool::new();
    let syncs = vec![sync("/home/u/a", "/b/a", 22), sync("/home/u/docs/b", "/b/b", 22)];
    let (r, launches) = apply(&mut pool, &mut next, &syncs);
    assert!(r.removed.is_empty());
    assert_eq!(r.outcomes, vec![SyncOutcome::Started, SyncOutcome::Started]);
    assert_eq!(local_paths(&pool), vec!["/home/u/a", "/home/u/docs/b"]);
    assert_eq!(
        launches,
        vec![
            ("/home/u".to_string(), "/home/u/a".to_string()),
            ("/home/u/docs".to_string(), "/home/u/docs/b".to_string()),
        ]
    );
    assert_eq!(*pool.get(0).handle(), 1);
    assert_eq!(*pool.get(1).handle(), 2);
}

#[test]
fn same_syncs_again_change_nothing() {
    let mut next = 0;
    let mut pool: TaskPool<usize> = TaskPool::new();
    let syncs = vec![sync("/home/u/a", "/b/a", 22), sync("/", "/b/root", 22)];
    let (first, l1) = apply(&mut pool, &mut next, &syncs);
    assert_eq!(first.outcomes, vec![SyncOutcome::Started, SyncOutcome::NoParent]);
    assert_eq!(l1.len(), 1);
    let (second, l2) = apply(&mut pool, &mut next, &syncs);
    assert!(second.removed.is_empty());
    assert!(l2.is_empty());
    assert_eq!(second.outcomes, vec![SyncOutcome::AlreadyRunning, SyncOutcome::NoParent]);
    assert_eq!(pool.len(), 1);
}

#[test]
fn dropped_syncs_remove_their_tasks_and_added_ones_start() {
    let mut next = 0;
    let mut pool: TaskPool<usize> = TaskPool::new();
    apply(&mut pool, &mut next, &vec![sync("/s/a", "/d/a", 22), sync("/s/b", "/d/b", 22), sync("/s/c", "/d/c", 22)]);
    let (r, launches) = apply(&mut pool, &mut next, &vec![sync("/s/c", "/d/c", 22), sync("/s/e", "/d/e", 22), sync("/s/a", "/d/a", 22)]);
    let removed: Vec<usize> = r.removed.into_iter().map(|t| t.into_handle()).collect();
    assert_eq!(removed, vec![2]);
    assert_eq!(r.outcomes, vec![SyncOutcome::AlreadyRunning, SyncOutcome::Started, SyncOutcome::AlreadyRunning]);
    assert_eq!(launches, vec![("/s".to_string(), "/s/e".to_string())]);
    assert_eq!(local_paths(&pool), vec!["/s/a", "/s/c", "/s/e"]);
    assert_eq!(*pool.get(2).handle(), 4);
}

#[test]
fn changed_address_or_remote_path_is_a_new_task() {
    let mut next = 0;
    let mut pool: TaskPool<usize> = TaskPool::new();
    apply(&mut pool, &mut next, &vec![sync("/s/a", "/d/a", 22)]);
    let (r, _) = apply(&mut pool, &mut next, &vec![sync("/s/a", "/d/a", 2222)]);
    assert_eq!(r.removed.len(), 1);
    assert_eq!(r.outcomes, vec![SyncOutcome::Started]);
    let (r, _) = apply(&mut pool, &mut next, &vec![sync("/s/a", "/d/other", 2222)]);
    assert_eq!(r.removed.len(), 1);
    assert_eq!(pool.get(0).remote_path().as_str(), "/d/other");
    assert_eq!(pool.get(0).remote_address(), RemoteAddr::V4 { ip4: 0x0a00_0001, port: 2222 });
}

#[test]
fn duplicate_syncs_get_one_task() {
    let mut next = 0;
    let mut pool: TaskPool<usize> = TaskPool::new();
    let (r, launches) = apply(&mut pool, &mut next, &vec![sync("/s/a", "/d/a", 22), sync("/s//a/", "/d/a", 22)]);
    assert_eq!(r.outcomes, vec![SyncOutcome::Started, SyncOutcome::AlreadyRunning]);
    assert_eq!(launches.len(), 1);
    assert_eq!(pool.len(), 1);
}

#[test]
fn empty_configuration_removes_every_task() {
    let mut next = 0;
    let mut pool: TaskPool<usize> = TaskPool::new();
    apply(&mut pool, &mut next, &vec![sync("/s/a", "/d/a", 22), sync("/s/b", "/d/b", 22)]);
    let (r, launches) = apply(&mut pool, &mut next, &vec![]);
    assert_eq!(r.removed.len(), 2);
    assert!(launches.is_empty());
    assert_eq!(pool.len(), 0);
}

#[test]
fn task_without_parent_is_refused() {
    let r = TaskLaunch::for_sync(&sync("/", "/d", 22));
    assert!(matches!(r, Err(TaskError::NoParent)));
    assert_eq!(TaskError::NoParent.message(), "no parent found for local path");
    let l = TaskLaunch::for_sync(&sync("rel", "/d", 22)).ok().unwrap();
    assert_eq!(l.local_parent.as_str(), "");
    assert!(l.serves(&sync("rel/", "/d/", 22)));
    let t: Task<u8> = Task::new(l, 7);
    assert_eq!(*t.handle(), 7);
    assert!(t.matches(&sync("rel", "/d", 22)));
    assert!(t.matches_any(&vec![sync("x", "/d", 22), sync("./rel", "/d", 22), sync("rel/", "/d/", 22)]));
    assert!(!t.matches(&sync("./rel", "/d", 22)));
}

#[test]
fn pool_pieces_compose_into_update() {
    let mut pool: TaskPool<usize> = TaskPool::new();
    let plan = pool.plan_starts(&vec![sync("/s/a", "/d/a", 22), sync("/s/b", "/d/b", 22)]);
    assert_eq!(plan.outcomes, vec![SyncOutcome::Started, SyncOutcome::Started]);
    assert_eq!(pool.len(), 0);
    for (i, l) in plan.launches.into_iter().enumerate() {
        pool.add(l, i);
    }
    assert!(pool.serves(&sync("/s/b", "/d/b", 22)));
    let removed = pool.remove_unconfigured(&vec![sync("/s/b", "/d/b", 22)]);
    assert_eq!(removed.len(), 1);
    assert!(!pool.serves(&sync("/s/a", "/d/a", 22)));
}
