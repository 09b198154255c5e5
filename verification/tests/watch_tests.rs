use mane::addr::RemoteAddr;
use mane::config::{Config, SyncConfig};
use mane::config_watch::{
    classify_config_event, ConfigAction, ConfigInput, ConfigLoad, ConfigPhase, ConfigSignal, ConfigWatch,
};
use mane::events::{DirStatus, FsEventKind};
use mane::path::FsPath;
use mane::task_watch::{
    classify_rsync_exit, classify_task_event, RsyncOutcome, TaskAction, TaskEventClass, TaskInput, TaskPhase, TaskSignal,
    TaskWatch,
};

fn paths(v: &[&str]) -> Vec<FsPath> {
    v.iter().map(|s| FsPath::from_text(s)).collect()
}

fn config(n: usize) -> Config {
    Config::new(
        (0..n)
            .map(|i| {
                SyncConfig::new(
                    FsPath::from_text(&format!("/s/{i}")),
                    FsPath::from_text(&format!("/d/{i}")),
                    RemoteAddr::V4 { ip4: 1, port: 22 },
                )
            })
            .collect(),
    )
}

fn listening() -> ConfigWatch {
    let mut w = ConfigWatch::new();
    assert_eq!(w.step(ConfigInput::Dir(DirStatus::Exists)), ConfigAction::CreateWatcher);
    assert_eq!(w.step(ConfigInput::WatcherCreated(true)), ConfigAction::WatchDir);
    assert_eq!(w.step(ConfigInput::WatchStarted(true)), ConfigAction::ReadConfig);
    assert_eq!(w.step(ConfigInput::Loaded(ConfigLoad::Missing)), ConfigAction::FileMissing);
    w
}

#[test]
fn config_event_removal_of_directory_or_change_of_file() {
    let dir = FsPath::from_text("/home/u/.config/mane");
    let file = FsPath::from_text("/home/u/.config/mane/config.toml");
    assert_eq!(
        classify_config_event(FsEventKind::RemoveFolder, &paths(&["/home/u/.config/mane/"]), &dir, &file),
        Some(ConfigSignal::ParentRemoved)
    );
    assert_eq!(
        classify_config_event(FsEventKind::ModifyDataAny, &paths(&["/tmp/x", "/home/u/.config/mane/config.toml"]), &dir, &file),
        Some(ConfigSignal::ConfigChanged)
    );
    assert_eq!(classify_config_event(FsEventKind::ModifyDataAny, &paths(&["/home/u/.config/mane/other.toml"]), &dir, &file), None);
    assert_eq!(classify_config_event(FsEventKind::Other, &paths(&["/home/u/.config/mane/config.toml"]), &dir, &file), None);
    assert_eq!(classify_config_event(FsEventKind::RemoveFolder, &paths(&["/home/u/.config"]), &dir, &file), None);
}

#[test]
fn missing_directory_is_polled_again() {
    let mut w = ConfigWatch::new();
    assert_eq!(w.phase(), ConfigPhase::CheckingDir);
    assert_eq!(w.step(ConfigInput::Dir(DirStatus::Missing)), ConfigAction::SleepThenCheckDir);
    assert_eq!(w.step(ConfigInput::Dir(DirStatus::Unknown)), ConfigAction::SleepThenCheckDir);
    assert_eq!(w.step(ConfigInput::Dir(DirStatus::Exists)), ConfigAction::CreateWatcher);
    assert_eq!(w.step(ConfigInput::WatcherCreated(false)), ConfigAction::SleepThenCheckDir);
    assert_eq!(w.phase(), ConfigPhase::CheckingDir);
}

#[test]
fn failed_watch_starts_over() {
    let mut w = ConfigWatch::new();
    w.step(ConfigInput::Dir(DirStatus::Exists));
    w.step(ConfigInput::WatcherCreated(true));
    assert_eq!(w.step(ConfigInput::WatchStarted(false)), ConfigAction::SleepThenCheckDir);
}

#[test]
fn changed_config_is_published_once() {
    let mut w = listening();
    assert_eq!(w.step(ConfigInput::Signal(Some(ConfigSignal::ConfigChanged))), ConfigAction::ReadConfig);
    assert_eq!(w.step(ConfigInput::Loaded(ConfigLoad::Parsed(config(2)))), ConfigAction::Publish);
    assert_eq!(w.current().syncs().len(), 2);
    w.step(ConfigInput::Signal(Some(ConfigSignal::ConfigChanged)));
    assert_eq!(w.step(ConfigInput::Loaded(ConfigLoad::Parsed(config(2)))), ConfigAction::KeepCurrent);
    w.step(ConfigInput::Signal(Some(ConfigSignal::ConfigChanged)));
    assert_eq!(w.step(ConfigInput::Loaded(ConfigLoad::Parsed(config(3)))), ConfigAction::Publish);
    assert_eq!(w.current().syncs().len(), 3);
}

#[test]
fn config_without_syncs_is_skipped() {
    let mut w = listening();
    w.step(ConfigInput::Signal(Some(ConfigSignal::ConfigChanged)));
    assert_eq!(w.step(ConfigInput::Loaded(ConfigLoad::Parsed(config(0)))), ConfigAction::SkipEmpty);
    assert_eq!(w.current().syncs().len(), 0);
    assert_eq!(w.phase(), ConfigPhase::Listening);
}

#[test]
fn unreadable_or_invalid_config_keeps_listening() {
    let mut w = listening();
    w.step(ConfigInput::Signal(Some(ConfigSignal::ConfigChanged)));
    assert_eq!(w.step(ConfigInput::Loaded(ConfigLoad::Unreadable)), ConfigAction::AwaitSignal);
    w.step(ConfigInput::Signal(Some(ConfigSignal::ConfigChanged)));
    assert_eq!(w.step(ConfigInput::Loaded(ConfigLoad::Invalid)), ConfigAction::AwaitSignal);
    assert_eq!(w.phase(), ConfigPhase::Listening);
}

#[test]
fn removed_directory_restarts_the_watch() {
    let mut w = listening();
    assert_eq!(w.step(ConfigInput::Signal(Some(ConfigSignal::ParentRemoved))), ConfigAction::CheckDir);
    let mut w = listening();
    assert_eq!(w.step(ConfigInput::Signal(None)), ConfigAction::CheckDir);
}

#[test]
fn unexpected_input_repeats_the_request() {
    let mut w = ConfigWatch::new();
    assert_eq!(w.step(ConfigInput::WatchStarted(true)), ConfigAction::CheckDir);
    let mut w = listening();
    assert_eq!(w.step(ConfigInput::Loaded(ConfigLoad::Parsed(config(1)))), ConfigAction::AwaitSignal);
    assert_eq!(w.current().syncs().len(), 0);
}

#[test]
fn task_event_classes() {
    let parent = FsPath::from_text("/home/u");
    let local = FsPath::from_text("/home/u/src");
    assert_eq!(classify_task_event(FsEventKind::RemoveFolder, &paths(&["/home/u"]), &parent, &local), TaskEventClass::ParentRemoved);
    assert_eq!(classify_task_event(FsEventKind::Other, &paths(&["/home/u/other"]), &parent, &local), TaskEventClass::Unrelated);
    assert_eq!(classify_task_event(FsEventKind::Other, &paths(&[]), &parent, &local), TaskEventClass::Unrelated);
    assert_eq!(classify_task_event(FsEventKind::ModifyDataAny, &paths(&["/home/u/src/a.txt"]), &parent, &local), TaskEventClass::Related);
    assert_eq!(classify_task_event(FsEventKind::RemoveFolder, &paths(&["/home/u/src"]), &parent, &local), TaskEventClass::Related);
}

#[test]
fn task_watch_polls_for_the_parent() {
    let mut w = TaskWatch::new();
    assert_eq!(w.step(TaskInput::Parent(DirStatus::Missing)), TaskAction::SleepThenCheckParent);
    assert_eq!(w.step(TaskInput::Parent(DirStatus::Unknown)), TaskAction::SleepThenCheckParent);
    assert_eq!(w.step(TaskInput::Parent(DirStatus::Exists)), TaskAction::CreateWatcher);
    assert_eq!(w.step(TaskInput::WatcherCreated(false)), TaskAction::SleepThenCheckParent);
    w.step(TaskInput::Parent(DirStatus::Exists));
    w.step(TaskInput::WatcherCreated(true));
    assert_eq!(w.step(TaskInput::WatchStarted(false)), TaskAction::SleepThenCheckParent);
}

fn task_listening() -> TaskWatch {
    let mut w = TaskWatch::new();
    w.step(TaskInput::Parent(DirStatus::Exists));
    w.step(TaskInput::WatcherCreated(true));
    assert_eq!(w.step(TaskInput::WatchStarted(true)), TaskAction::RunSync);
    assert_eq!(w.step(TaskInput::SyncFinished(Some(0))), TaskAction::Report(RsyncOutcome::Synced));
    w
}

#[test]
fn task_watch_stops_on_abort_in_every_phase_and_stays_stopped() {
    let mut w = TaskWatch::new();
    assert_eq!(w.step(TaskInput::Abort), TaskAction::Stop);
    assert_eq!(w.phase(), TaskPhase::Stopped);
    assert_eq!(w.step(TaskInput::Parent(DirStatus::Exists)), TaskAction::Stop);
    let mut w = TaskWatch::new();
    w.step(TaskInput::Parent(DirStatus::Exists));
    assert_eq!(w.step(TaskInput::Abort), TaskAction::Stop);
    let mut w = task_listening();
    assert_eq!(w.step(TaskInput::Signal(Some(TaskSignal::Changed))), TaskAction::AwaitQuiet);
    assert_eq!(w.step(TaskInput::Abort), TaskAction::Stop);
    assert_eq!(w.phase(), TaskPhase::Stopped);
}

#[test]
fn task_watch_restarts_when_parent_goes() {
    let mut w = task_listening();
    assert_eq!(w.step(TaskInput::Signal(Some(TaskSignal::ParentRemoved))), TaskAction::CheckParent);
    assert_eq!(w.phase(), TaskPhase::CheckingParent);
}

#[test]
fn changes_are_synced_once_they_settle() {
    let mut w = task_listening();
    assert_eq!(w.step(TaskInput::Signal(Some(TaskSignal::Changed))), TaskAction::AwaitQuiet);
    assert_eq!(w.step(TaskInput::Signal(Some(TaskSignal::Changed))), TaskAction::AwaitQuiet);
    assert_eq!(w.step(TaskInput::QuietElapsed), TaskAction::RunSync);
    assert_eq!(w.step(TaskInput::SyncFinished(Some(255))), TaskAction::Report(RsyncOutcome::Unreachable));
    assert_eq!(w.phase(), TaskPhase::Listening);
}

#[test]
fn rsync_exit_statuses() {
    assert_eq!(classify_rsync_exit(Some(0)), RsyncOutcome::Synced);
    assert_eq!(classify_rsync_exit(Some(10)), RsyncOutcome::Unreachable);
    assert_eq!(classify_rsync_exit(Some(30)), RsyncOutcome::Unreachable);
    assert_eq!(classify_rsync_exit(Some(35)), RsyncOutcome::Unreachable);
    assert_eq!(classify_rsync_exit(Some(255)), RsyncOutcome::Unreachable);
    assert_eq!(classify_rsync_exit(Some(23)), RsyncOutcome::Failed);
    assert_eq!(classify_rsync_exit(None), RsyncOutcome::Failed);
}

#[test]
fn published_config_is_not_emptied_by_an_empty_file() {
    let mut w = listening();
    w.step(ConfigInput::Signal(Some(ConfigSignal::ConfigChanged)));
    assert_eq!(w.step(ConfigInput::Loaded(ConfigLoad::Parsed(config(2)))), ConfigAction::Publish);
    w.step(ConfigInput::Signal(Some(ConfigSignal::ConfigChanged)));
    assert_eq!(w.step(ConfigInput::Loaded(ConfigLoad::Parsed(config(0)))), ConfigAction::SkipEmpty);
    assert_eq!(w.current().syncs().len(), 2);
}

#[test]
fn existing_config_is_taken_when_the_watch_starts() {
    let mut w = ConfigWatch::new();
    w.step(ConfigInput::Dir(DirStatus::Exists));
    w.step(ConfigInput::WatcherCreated(true));
    assert_eq!(w.step(ConfigInput::WatchStarted(true)), ConfigAction::ReadConfig);
    assert_eq!(w.step(ConfigInput::Loaded(ConfigLoad::Parsed(config(2)))), ConfigAction::Publish);
    assert_eq!(w.current().syncs().len(), 2);
}

#[test]
fn missing_config_file_is_reported() {
    let mut w = ConfigWatch::new();
    w.step(ConfigInput::Dir(DirStatus::Exists));
    w.step(ConfigInput::WatcherCreated(true));
    w.step(ConfigInput::WatchStarted(true));
    assert_eq!(w.step(ConfigInput::Loaded(ConfigLoad::Missing)), ConfigAction::FileMissing);
    assert_eq!(w.phase(), ConfigPhase::Listening);
    assert_eq!(w.current().syncs().len(), 0);
}
