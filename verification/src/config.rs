//! Configuration of the sync tool: which directories go where, and where the
//! configuration file itself lives.

use vstd::prelude::*;
use crate::addr::RemoteAddr;
use crate::path::{FsPath, path_join, path_parent, same_path};

verus! {

/// Where the configuration file lies below the home directory.
pub const DEFAULT_CONFIG_PATH: &'static str = ".config/mane/config.toml";

/// The parameters of one synchronisation: a local path, the path it is
/// copied to, and the address of the machine that holds that path.
#[derive(Debug)]
pub struct SyncConfig {
    pub local_path: FsPath,
    pub remote_path: FsPath,
    pub remote_addr: RemoteAddr,
}

/// The mathematical value of a [`SyncConfig`].
pub struct SyncView {
    pub local_path: Seq<char>,
    pub remote_path: Seq<char>,
    pub remote_addr: RemoteAddr,
}

impl View for SyncConfig {
    type V = SyncView;

    open spec fn view(&self) -> SyncView {
        SyncView {
            local_path: self.local_path@,
            remote_path: self.remote_path@,
            remote_addr: self.remote_addr,
        }
    }
}

/// Two sync parameters are equal when both paths name the same paths and
/// the addresses agree.
pub open spec fn same_sync(a: SyncView, b: SyncView) -> bool {
    same_path(a.local_path, b.local_path) && same_path(a.remote_path, b.remote_path)
        && a.remote_addr == b.remote_addr
}

pub open spec fn sync_views(v: Seq<SyncConfig>) -> Seq<SyncView> {
    v.map_values(|s: SyncConfig| s@)
}

/// Two lists of sync parameters are equal when they agree position by position.
pub open spec fn same_syncs(a: Seq<SyncView>, b: Seq<SyncView>) -> bool {
    a.len() == b.len() && forall|i: int| 0 <= i < a.len() ==> same_sync(#[trigger] a[i], b[i])
}

impl SyncConfig {
    pub fn new(local_path: FsPath, remote_path: FsPath, remote_addr: RemoteAddr) -> (s: SyncConfig)
        ensures
            s@ == (SyncView { local_path: local_path@, remote_path: remote_path@, remote_addr }),
    {
        SyncConfig { local_path, remote_path, remote_addr }
    }

    /// A copy of these parameters.
    pub fn duplicate(&self) -> (s: SyncConfig)
        ensures
            s@ == self@,
    {
        SyncConfig {
            local_path: self.local_path.duplicate(),
            remote_path: self.remote_path.duplicate(),
            remote_addr: self.remote_addr,
        }
    }

    /// Whether the two parameters are equal.
    pub fn same_as(&self, other: &SyncConfig) -> (r: bool)
        ensures
            r == same_sync(self@, other@),
    {
        self.local_path.same_as(&other.local_path) && self.remote_path.same_as(&other.remote_path)
            && self.remote_addr.same_as(&other.remote_addr)
    }
}

/// Whether the two lists of sync parameters are equal.
pub fn syncs_equal(a: &Vec<SyncConfig>, b: &Vec<SyncConfig>) -> (r: bool)
    ensures
        r == same_syncs(sync_views(a@), sync_views(b@)),
{
    let ghost av = sync_views(a@);
    let ghost bv = sync_views(b@);
    if a.len() != b.len() {
        return false;
    }
    let mut i: usize = 0;
    while i < a.len()
        invariant
            a.len() == b.len(),
            av == sync_views(a@),
            bv == sync_views(b@),
            0 <= i <= a.len(),
            forall|j: int| 0 <= j < i ==> same_sync(#[trigger] av[j], bv[j]),
        decreases a.len() - i,
    {
        if !a[i].same_as(&b[i]) {
            assert(!same_sync(av[i as int], bv[i as int]));
            return false;
        }
        i = i + 1;
    }
    true
}

/// The configuration: the list of synchronisations to run.
#[derive(Debug)]
pub struct Config {
    pub syncs: Vec<SyncConfig>,
}

impl Config {
    /// The configuration without synchronisations, as an absent `syncs`
    /// table gives it.
    pub fn empty() -> (c: Config)
        ensures
            c.syncs@.len() == 0,
    {
        Config { syncs: Vec::new() }
    }

    pub fn new(syncs: Vec<SyncConfig>) -> (c: Config)
        ensures
            c.syncs@ == syncs@,
    {
        Config { syncs }
    }

    /// A copy of the configuration.
    pub fn duplicate(&self) -> (c: Config)
        ensures
            sync_views(c.syncs@) == sync_views(self.syncs@),
    {
        let mut syncs: Vec<SyncConfig> = Vec::new();
        let mut i: usize = 0;
        while i < self.syncs.len()
            invariant
                0 <= i <= self.syncs.len(),
                sync_views(syncs@) == sync_views(self.syncs@).take(i as int),
            decreases self.syncs.len() - i,
        {
            let ghost before = syncs@;
            syncs.push(self.syncs[i].duplicate());
            assert(sync_views(syncs@) =~= sync_views(before).push(self.syncs@[i as int]@));
            assert(sync_views(self.syncs@).take(i as int + 1) =~= sync_views(self.syncs@).take(
                i as int,
            ).push(self.syncs@[i as int]@));
            i = i + 1;
        }
        assert(sync_views(self.syncs@).take(self.syncs.len() as int) =~= sync_views(self.syncs@));
        Config { syncs }
    }

    /// The synchronisations of the configuration.
    pub fn syncs(&self) -> (r: &Vec<SyncConfig>)
        ensures
            r@ == self.syncs@,
    {
        &self.syncs
    }
}

/// Why the configuration could not be located.
#[derive(Debug)]
pub enum ConfigError {
    /// An unknown option was given, or the config option had no value.
    InvalidArg(Option<String>),
    HomeDirNotFound,
    /// The configuration path has no parent directory.
    ParentNotFound(FsPath),
}

pub enum ConfigErrorView {
    InvalidArg(Option<Seq<char>>),
    HomeDirNotFound,
    ParentNotFound(Seq<char>),
}

impl View for ConfigError {
    type V = ConfigErrorView;

    open spec fn view(&self) -> ConfigErrorView {
        match self {
            ConfigError::InvalidArg(Some(a)) => ConfigErrorView::InvalidArg(Some(a@)),
            ConfigError::InvalidArg(None) => ConfigErrorView::InvalidArg(None),
            ConfigError::HomeDirNotFound => ConfigErrorView::HomeDirNotFound,
            ConfigError::ParentNotFound(p) => ConfigErrorView::ParentNotFound(p@),
        }
    }
}

/// The text that describes a [`ConfigError`].
pub open spec fn error_message(e: ConfigErrorView) -> Seq<char> {
    match e {
        ConfigErrorView::InvalidArg(Some(arg)) => "invalid argument passed: "@ + arg,
        ConfigErrorView::InvalidArg(None) => "no argument passed"@,
        ConfigErrorView::HomeDirNotFound => "unable to determine home directory"@,
        ConfigErrorView::ParentNotFound(path) => "error determining parent path for "@ + path,
    }
}

impl ConfigError {
    /// The text that describes the error.
    pub fn message(&self) -> (r: String)
        ensures
            r@ == error_message(self@),
    {
        match self {
            ConfigError::InvalidArg(Some(arg)) => String::from_str("invalid argument passed: ").concat(
                arg.as_str(),
            ),
            ConfigError::InvalidArg(None) => String::from_str("no argument passed"),
            ConfigError::HomeDirNotFound => String::from_str("unable to determine home directory"),
            ConfigError::ParentNotFound(path) => String::from_str(
                "error determining parent path for ",
            ).concat(path.as_str()),
        }
    }
}

/// Where the configuration file is, and the directory that holds it.
pub struct ConfigLocation {
    pub path: FsPath,
    pub dir: FsPath,
}

/// The configuration path that the command line `args` (the program name
/// first) select, with the home directory `home` for the default.
pub open spec fn selected_config_path(args: Seq<Seq<char>>, home: Option<Seq<char>>) -> Result<
    Seq<char>,
    ConfigErrorView,
> {
    if args.len() <= 1 {
        match home {
            Some(h) => Ok(path_join(h, DEFAULT_CONFIG_PATH@)),
            None => Err(ConfigErrorView::HomeDirNotFound),
        }
    } else if args[1] == "-c"@ || args[1] == "--config"@ {
        if args.len() > 2 {
            Ok(args[2])
        } else {
            Err(ConfigErrorView::InvalidArg(None))
        }
    } else {
        Err(ConfigErrorView::InvalidArg(Some(args[1])))
    }
}

/// The configuration path and its directory, or why there are none.
pub open spec fn config_location_of(args: Seq<Seq<char>>, home: Option<Seq<char>>) -> Result<
    (Seq<char>, Seq<char>),
    ConfigErrorView,
> {
    match selected_config_path(args, home) {
        Ok(path) => match path_parent(path) {
            Some(dir) => Ok((path, dir)),
            None => Err(ConfigErrorView::ParentNotFound(path)),
        },
        Err(e) => Err(e),
    }
}

pub open spec fn path_option_view(p: Option<FsPath>) -> Option<Seq<char>> {
    match p {
        Some(h) => Some(h@),
        None => None,
    }
}

pub open spec fn string_views(v: Seq<String>) -> Seq<Seq<char>> {
    v.map_values(|s: String| s@)
}

fn text_equals(a: &str, b: &str) -> (r: bool)
    ensures
        r == (a@ == b@),
{
    let n = a.unicode_len();
    if n != b.unicode_len() {
        return false;
    }
    let mut i: usize = 0;
    while i < n
        invariant
            n == a@.len(),
            n == b@.len(),
            0 <= i <= n,
            forall|j: int| 0 <= j < i ==> a@[j] == b@[j],
        decreases n - i,
    {
        if a.get_char(i) != b.get_char(i) {
            return false;
        }
        i = i + 1;
    }
    assert(a@ =~= b@);
    true
}

/// Locates the configuration file from the command line `args` (the
/// program name first) and the home directory `home`: `-c PATH` or
/// `--config PATH` names it, no argument selects the default below `home`,
/// and anything else is refused.
pub fn config_location(args: &Vec<String>, home: Option<FsPath>) -> (r: Result<ConfigLocation, ConfigError>)
    ensures
        match r {
            Ok(loc) => config_location_of(string_views(args@), path_option_view(home)) == Ok::<
                (Seq<char>, Seq<char>),
                ConfigErrorView,
            >((loc.path@, loc.dir@)),
            Err(e) => config_location_of(string_views(args@), path_option_view(home)) == Err::<
                (Seq<char>, Seq<char>),
                ConfigErrorView,
            >(e@),
        },
{
    let ghost av = string_views(args@);
    let path = if args.len() <= 1 {
        match home {
            Some(h) => h.join(DEFAULT_CONFIG_PATH),
            None => {
                return Err(ConfigError::HomeDirNotFound);
            },
        }
    } else {
        let first = args[1].as_str();
        assert(first@ == av[1]);
        if text_equals(first, "-c") || text_equals(first, "--config") {
            if args.len() > 2 {
                assert(args[2]@ == av[2]);
                FsPath::from_text(args[2].as_str())
            } else {
                return Err(ConfigError::InvalidArg(None));
            }
        } else {
            return Err(ConfigError::InvalidArg(Some(args[1].clone())));
        }
    };
    match path.parent() {
        Some(dir) => Ok(ConfigLocation { path, dir }),
        None => Err(ConfigError::ParentNotFound(path)),
    }
}

} // verus!
