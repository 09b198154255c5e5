//! The decisions of the configuration watcher: it waits for the directory of
//! the configuration file, watches it, and hands on each new configuration.

use vstd::prelude::*;
use crate::config::{Config, SyncView, same_sync, same_syncs, sync_views, syncs_equal};
use crate::events::{DirStatus, FsEventKind, any_same_path, names_path, path_views};
use crate::path::{FsPath, same_path};

verus! {

/// What an event in the configuration directory means to the watcher.
#[derive(Clone, Copy, Debug, PartialEq, Eq, Structural)]
pub enum ConfigSignal {
    /// The configuration directory was removed: the watch must be set up again.
    ParentRemoved,
    /// The configuration file changed.
    ConfigChanged,
}

/// What an event of kind `kind` on `paths` means, for the configuration file
/// `config_path` in the directory `config_dir`.
pub open spec fn config_signal_of(
    kind: FsEventKind,
    paths: Seq<Seq<char>>,
    config_dir: Seq<char>,
    config_path: Seq<char>,
) -> Option<ConfigSignal> {
    if kind == FsEventKind::RemoveFolder && names_path(paths, config_dir) {
        Some(ConfigSignal::ParentRemoved)
    } else if kind == FsEventKind::ModifyDataAny && names_path(paths, config_path) {
        Some(ConfigSignal::ConfigChanged)
    } else {
        None
    }
}

/// Tells what an event of kind `kind` on `paths` means for the configuration
/// file `config_path` in the directory `config_dir`: the removal of that
/// directory, a change of that file's data, or nothing.
pub fn classify_config_event(
    kind: FsEventKind,
    paths: &Vec<FsPath>,
    config_dir: &FsPath,
    config_path: &FsPath,
) -> (r: Option<ConfigSignal>)
    ensures
        r == config_signal_of(kind, path_views(paths@), config_dir@, config_path@),
{
    if kind == FsEventKind::RemoveFolder && any_same_path(paths, config_dir) {
        return Some(ConfigSignal::ParentRemoved);
    }
    if kind == FsEventKind::ModifyDataAny && any_same_path(paths, config_path) {
        return Some(ConfigSignal::ConfigChanged);
    }
    None
}

/// What came of reading and parsing the configuration file.
pub enum ConfigLoad {
    /// The file does not exist.
    Missing,
    Unreadable,
    Invalid,
    Parsed(Config),
}

/// What the outside world reports to the watcher.
pub enum ConfigInput {
    /// The configuration directory was looked for.
    Dir(DirStatus),
    /// A filesystem watcher was made, or could not be.
    WatcherCreated(bool),
    /// The watcher started watching the directory, or could not.
    WatchStarted(bool),
    /// The next event; none when no more events can come.
    Signal(Option<ConfigSignal>),
    /// The configuration file was read.
    Loaded(ConfigLoad),
}

pub enum ConfigLoadView {
    Missing,
    Unreadable,
    Invalid,
    Parsed(Seq<SyncView>),
}

pub enum ConfigInputView {
    Dir(DirStatus),
    WatcherCreated(bool),
    WatchStarted(bool),
    Signal(Option<ConfigSignal>),
    Loaded(ConfigLoadView),
}

impl View for ConfigInput {
    type V = ConfigInputView;

    open spec fn view(&self) -> ConfigInputView {
        match self {
            ConfigInput::Dir(d) => ConfigInputView::Dir(*d),
            ConfigInput::WatcherCreated(b) => ConfigInputView::WatcherCreated(*b),
            ConfigInput::WatchStarted(b) => ConfigInputView::WatchStarted(*b),
            ConfigInput::Signal(s) => ConfigInputView::Signal(*s),
            ConfigInput::Loaded(ConfigLoad::Missing) => ConfigInputView::Loaded(
                ConfigLoadView::Missing,
            ),
            ConfigInput::Loaded(ConfigLoad::Unreadable) => ConfigInputView::Loaded(
                ConfigLoadView::Unreadable,
            ),
            ConfigInput::Loaded(ConfigLoad::Invalid) => ConfigInputView::Loaded(
                ConfigLoadView::Invalid,
            ),
            ConfigInput::Loaded(ConfigLoad::Parsed(c)) => ConfigInputView::Loaded(
                ConfigLoadView::Parsed(sync_views(c.syncs@)),
            ),
        }
    }
}

/// Where the watcher stands.
#[derive(Clone, Copy, Debug, PartialEq, Eq, Structural)]
pub enum ConfigPhase {
    CheckingDir,
    CreatingWatcher,
    StartingWatch,
    Listening,
    Loading,
}

/// What the watcher asks the outside world to do next.
#[derive(Clone, Copy, Debug, PartialEq, Eq, Structural)]
pub enum ConfigAction {
    /// Drop any watcher and look for the configuration directory.
    CheckDir,
    /// Drop any watcher, wait for the polling interval, then look for the
    /// configuration directory.
    SleepThenCheckDir,
    CreateWatcher,
    /// Watch the configuration directory, then read the configuration
    /// file as it stands.
    WatchDir,
    /// Wait for the next event.
    AwaitSignal,
    /// Read and parse the configuration file.
    ReadConfig,
    /// Hand on the current configuration, which has just changed, then wait
    /// for the next event.
    Publish,
    /// The configuration read has no syncs and is not taken; wait for the
    /// next event.
    SkipEmpty,
    /// The configuration read equals the current one; wait for the next
    /// event.
    KeepCurrent,
    /// The configuration file does not exist; report it and wait for the
    /// next event.
    FileMissing,
}

pub struct ConfigWatchView {
    pub phase: ConfigPhase,
    pub current: Seq<SyncView>,
}

/// What the watcher asks for while it stands in `phase` and waits.
pub open spec fn pending_action(phase: ConfigPhase) -> ConfigAction {
    match phase {
        ConfigPhase::CheckingDir => ConfigAction::CheckDir,
        ConfigPhase::CreatingWatcher => ConfigAction::CreateWatcher,
        ConfigPhase::StartingWatch => ConfigAction::WatchDir,
        ConfigPhase::Listening => ConfigAction::AwaitSignal,
        ConfigPhase::Loading => ConfigAction::ReadConfig,
    }
}

pub open spec fn with_phase(s: ConfigWatchView, phase: ConfigPhase) -> ConfigWatchView {
    ConfigWatchView { phase, current: s.current }
}

/// The watcher's next state and request, from state `s` on input `input`.
/// An input that does not answer the pending request changes nothing and
/// repeats the request.
pub open spec fn config_step(s: ConfigWatchView, input: ConfigInputView) -> (ConfigWatchView, ConfigAction) {
    match (s.phase, input) {
        (ConfigPhase::CheckingDir, ConfigInputView::Dir(d)) => if d == DirStatus::Exists {
            (with_phase(s, ConfigPhase::CreatingWatcher), ConfigAction::CreateWatcher)
        } else {
            (with_phase(s, ConfigPhase::CheckingDir), ConfigAction::SleepThenCheckDir)
        },
        (ConfigPhase::CreatingWatcher, ConfigInputView::WatcherCreated(ok)) => if ok {
            (with_phase(s, ConfigPhase::StartingWatch), ConfigAction::WatchDir)
        } else {
            (with_phase(s, ConfigPhase::CheckingDir), ConfigAction::SleepThenCheckDir)
        },
        (ConfigPhase::StartingWatch, ConfigInputView::WatchStarted(ok)) => if ok {
            (with_phase(s, ConfigPhase::Loading), ConfigAction::ReadConfig)
        } else {
            (with_phase(s, ConfigPhase::CheckingDir), ConfigAction::SleepThenCheckDir)
        },
        (ConfigPhase::Listening, ConfigInputView::Signal(sig)) => match sig {
            Some(ConfigSignal::ConfigChanged) => (
                with_phase(s, ConfigPhase::Loading),
                ConfigAction::ReadConfig,
            ),
            _ => (with_phase(s, ConfigPhase::CheckingDir), ConfigAction::CheckDir),
        },
        (ConfigPhase::Loading, ConfigInputView::Loaded(load)) => match load {
            ConfigLoadView::Parsed(syncs) => if syncs.len() == 0 {
                (with_phase(s, ConfigPhase::Listening), ConfigAction::SkipEmpty)
            } else if same_syncs(s.current, syncs) {
                (with_phase(s, ConfigPhase::Listening), ConfigAction::KeepCurrent)
            } else {
                (
                    ConfigWatchView { phase: ConfigPhase::Listening, current: syncs },
                    ConfigAction::Publish,
                )
            },
            ConfigLoadView::Missing => (
                with_phase(s, ConfigPhase::Listening),
                ConfigAction::FileMissing,
            ),
            _ => (with_phase(s, ConfigPhase::Listening), ConfigAction::AwaitSignal),
        },
        _ => (s, pending_action(s.phase)),
    }
}

/// The configuration watcher: where it stands, and the configuration it
/// last handed on.
pub struct ConfigWatch {
    phase: ConfigPhase,
    current: Config,
}

impl View for ConfigWatch {
    type V = ConfigWatchView;

    closed spec fn view(&self) -> ConfigWatchView {
        ConfigWatchView { phase: self.phase, current: sync_views(self.current.syncs@) }
    }
}

impl ConfigWatch {
    /// The watcher at its start: it looks for the directory, and the
    /// configuration handed on so far has no syncs.
    pub fn new() -> (w: ConfigWatch)
        ensures
            w@.phase == ConfigPhase::CheckingDir,
            w@.current.len() == 0,
    {
        ConfigWatch { phase: ConfigPhase::CheckingDir, current: Config::empty() }
    }

    /// The configuration last handed on.
    pub fn current(&self) -> (c: &Config)
        ensures
            sync_views(c.syncs@) == self@.current,
    {
        &self.current
    }

    pub fn phase(&self) -> (p: ConfigPhase)
        ensures
            p == self@.phase,
    {
        self.phase
    }

    /// Takes in what the outside world reports and says what to do next.
    pub fn step(&mut self, input: ConfigInput) -> (action: ConfigAction)
        ensures
            (final(self)@, action) == config_step(old(self)@, input@),
    {
        match (self.phase, input) {
            (ConfigPhase::CheckingDir, ConfigInput::Dir(d)) => {
                if d == DirStatus::Exists {
                    self.phase = ConfigPhase::CreatingWatcher;
                    ConfigAction::CreateWatcher
                } else {
                    ConfigAction::SleepThenCheckDir
                }
            },
            (ConfigPhase::CreatingWatcher, ConfigInput::WatcherCreated(ok)) => {
                if ok {
                    self.phase = ConfigPhase::StartingWatch;
                    ConfigAction::WatchDir
                } else {
                    self.phase = ConfigPhase::CheckingDir;
                    ConfigAction::SleepThenCheckDir
                }
            },
            (ConfigPhase::StartingWatch, ConfigInput::WatchStarted(ok)) => {
                if ok {
                    self.phase = ConfigPhase::Loading;
                    ConfigAction::ReadConfig
                } else {
                    self.phase = ConfigPhase::CheckingDir;
                    ConfigAction::SleepThenCheckDir
                }
            },
            (ConfigPhase::Listening, ConfigInput::Signal(sig)) => {
                match sig {
                    Some(ConfigSignal::ConfigChanged) => {
                        self.phase = ConfigPhase::Loading;
                        ConfigAction::ReadConfig
                    },
                    _ => {
                        self.phase = ConfigPhase::CheckingDir;
                        ConfigAction::CheckDir
                    },
                }
            },
            (ConfigPhase::Loading, ConfigInput::Loaded(load)) => {
                self.phase = ConfigPhase::Listening;
                match load {
                    ConfigLoad::Parsed(config) => {
                        if config.syncs.len() == 0 {
                            ConfigAction::SkipEmpty
                        } else if syncs_equal(&self.current.syncs, &config.syncs) {
                            ConfigAction::KeepCurrent
                        } else {
                            self.current = config;
                            ConfigAction::Publish
                        }
                    },
                    ConfigLoad::Missing => ConfigAction::FileMissing,
                    _ => ConfigAction::AwaitSignal,
                }
            },
            (phase, _) => match phase {
                ConfigPhase::CheckingDir => ConfigAction::CheckDir,
                ConfigPhase::CreatingWatcher => ConfigAction::CreateWatcher,
                ConfigPhase::StartingWatch => ConfigAction::WatchDir,
                ConfigPhase::Listening => ConfigAction::AwaitSignal,
                ConfigPhase::Loading => ConfigAction::ReadConfig,
            },
        }
    }
}

/// The configuration handed on changes only with a `Publish`, and a
/// `Publish` hands on a configuration that has syncs and differs from the
/// one before.
pub proof fn law_config_changes_only_by_publish(s: ConfigWatchView, input: ConfigInputView)
    ensures
        ({
            let (t, a) = config_step(s, input);
            &&& t.current != s.current ==> a == ConfigAction::Publish
            &&& a == ConfigAction::Publish ==> t.current.len() > 0 && !same_syncs(
                s.current,
                t.current,
            )
        }),
{
}

/// Once the directory is watched, the first thing the watcher does is read
/// the configuration file as it stands, so that an existing file is taken
/// at the start, and a missing one is reported.
pub proof fn law_watch_start_reads_config(s: ConfigWatchView)
    requires
        s.phase == ConfigPhase::StartingWatch,
    ensures
        config_step(s, ConfigInputView::WatchStarted(true)) == (
            with_phase(s, ConfigPhase::Loading),
            ConfigAction::ReadConfig,
        ),
        config_step(with_phase(s, ConfigPhase::Loading), ConfigInputView::Loaded(
            ConfigLoadView::Missing,
        )) == (with_phase(s, ConfigPhase::Listening), ConfigAction::FileMissing),
{
}

/// A watcher that starts from scratch and finds the directory takes the
/// configuration file that exists there, when it has syncs.
pub proof fn law_existing_config_taken_at_start(syncs: Seq<SyncView>)
    requires
        syncs.len() > 0,
    ensures
        ({
            let s0 = ConfigWatchView { phase: ConfigPhase::CheckingDir, current: Seq::empty() };
            let s1 = config_step(s0, ConfigInputView::Dir(DirStatus::Exists)).0;
            let s2 = config_step(s1, ConfigInputView::WatcherCreated(true)).0;
            let (s3, a3) = config_step(s2, ConfigInputView::WatchStarted(true));
            let (s4, a4) = config_step(s3, ConfigInputView::Loaded(ConfigLoadView::Parsed(syncs)));
            &&& a3 == ConfigAction::ReadConfig
            &&& a4 == ConfigAction::Publish
            &&& s4.current == syncs
        }),
{
}

/// Once a configuration with syncs was handed on, the configuration handed
/// on always has syncs.
pub proof fn law_published_config_never_empties(s: ConfigWatchView, input: ConfigInputView)
    requires
        s.current.len() > 0,
    ensures
        config_step(s, input).0.current.len() > 0,
{
}

/// A configuration that was just handed on, read again after the next
/// change of the file, is not handed on a second time.
pub proof fn law_same_config_published_once(
    s: ConfigWatchView,
    first: Seq<SyncView>,
    again: Seq<SyncView>,
)
    requires
        config_step(s, ConfigInputView::Loaded(ConfigLoadView::Parsed(first))).1
            == ConfigAction::Publish,
        same_syncs(first, again),
    ensures
        ({
            let t1 = config_step(s, ConfigInputView::Loaded(ConfigLoadView::Parsed(first))).0;
            let t2 = config_step(t1, ConfigInputView::Signal(Some(ConfigSignal::ConfigChanged))).0;
            let (t3, a3) = config_step(t2, ConfigInputView::Loaded(ConfigLoadView::Parsed(again)));
            &&& a3 == ConfigAction::KeepCurrent
            &&& t3.current == first
        }),
{
}

/// Whatever the watcher waits for, the removal of the configuration
/// directory or the end of the events makes it drop its watcher and look
/// for the directory again.
pub proof fn law_lost_watch_restarts(s: ConfigWatchView, sig: Option<ConfigSignal>)
    requires
        s.phase == ConfigPhase::Listening,
        sig != Some(ConfigSignal::ConfigChanged),
    ensures
        config_step(s, ConfigInputView::Signal(sig)) == (
            with_phase(s, ConfigPhase::CheckingDir),
            ConfigAction::CheckDir,
        ),
{
}

/// A loaded configuration with syncs that differs from the current one in
/// any sync's local path, remote path or remote address is handed on.
pub proof fn law_changed_sync_is_published(s: ConfigWatchView, syncs: Seq<SyncView>, i: int)
    requires
        s.phase == ConfigPhase::Loading,
        syncs.len() > 0,
        0 <= i < syncs.len(),
        0 <= i < s.current.len(),
        !same_path(s.current[i].local_path, syncs[i].local_path) || !same_path(
            s.current[i].remote_path,
            syncs[i].remote_path,
        ) || s.current[i].remote_addr != syncs[i].remote_addr,
    ensures
        config_step(s, ConfigInputView::Loaded(ConfigLoadView::Parsed(syncs))) == (
            ConfigWatchView { phase: ConfigPhase::Listening, current: syncs },
            ConfigAction::Publish,
        ),
{
}

/// A loaded configuration with syncs and another number of syncs than the
/// current one is handed on.
pub proof fn law_resized_config_is_published(s: ConfigWatchView, syncs: Seq<SyncView>)
    requires
        s.phase == ConfigPhase::Loading,
        syncs.len() > 0,
        syncs.len() != s.current.len(),
    ensures
        config_step(s, ConfigInputView::Loaded(ConfigLoadView::Parsed(syncs))) == (
            ConfigWatchView { phase: ConfigPhase::Listening, current: syncs },
            ConfigAction::Publish,
        ),
{
}

/// The current configuration is kept only when the loaded one has as many
/// syncs, each with the same local path, the same remote path and the same
/// remote address as the current sync at its position.
pub proof fn law_kept_config_is_unchanged(s: ConfigWatchView, input: ConfigInputView)
    ensures
        config_step(s, input).1 == ConfigAction::KeepCurrent ==> (input matches ConfigInputView::Loaded(
            ConfigLoadView::Parsed(syncs),
        ) && syncs.len() == s.current.len() && forall|i: int|
            0 <= i < syncs.len() ==> same_path(#[trigger] syncs[i].local_path, s.current[i].local_path)
                && same_path(syncs[i].remote_path, s.current[i].remote_path)
                && syncs[i].remote_addr == s.current[i].remote_addr),
{
    if config_step(s, input).1 == ConfigAction::KeepCurrent {
        if let ConfigInputView::Loaded(ConfigLoadView::Parsed(syncs)) = input {
            assert forall|i: int| 0 <= i < syncs.len() implies same_path(
                #[trigger] syncs[i].local_path,
                s.current[i].local_path,
            ) && same_path(syncs[i].remote_path, s.current[i].remote_path) && syncs[i].remote_addr
                == s.current[i].remote_addr by {
                assert(same_sync(s.current[i], syncs[i]));
            }
        }
    }
}

/// What an event means to the configuration watcher, in terms of its paths:
/// the removal of a directory among its paths that names the configuration
/// directory, or else a change of data with a path that names the
/// configuration file; nothing otherwise.
pub proof fn law_config_event_meaning(
    kind: FsEventKind,
    paths: Seq<Seq<char>>,
    config_dir: Seq<char>,
    config_path: Seq<char>,
)
    ensures
        ({
            let r = config_signal_of(kind, paths, config_dir, config_path);
            let dir_gone = kind == FsEventKind::RemoveFolder && exists|i: int|
                0 <= i < paths.len() && same_path(#[trigger] paths[i], config_dir);
            let file_changed = kind == FsEventKind::ModifyDataAny && exists|i: int|
                0 <= i < paths.len() && same_path(#[trigger] paths[i], config_path);
            &&& (r == Some(ConfigSignal::ParentRemoved)) == dir_gone
            &&& (r == Some(ConfigSignal::ConfigChanged)) == (!dir_gone && file_changed)
            &&& (r is None) == (!dir_gone && !file_changed)
        }),
{
}

} // verus!
