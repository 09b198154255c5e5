use mane::addr::RemoteAddr;
use mane::config::{config_location, syncs_equal, Config, ConfigError, SyncConfig, DEFAULT_CONFIG_PATH};
use mane::path::FsPath;

fn args(v: &[&str]) -> Vec<String> {
    v.iter().map(|s| s.to_string()).collect()
}

fn home() -> Option<FsPath> {
    Some(FsPath::from_text("/home/u"))
}

fn sync(local: &str, remote: &str, port: u16) -> SyncConfig {
    SyncConfig::new(
        FsPath::from_text(local),
        FsPath::from_text(remote),
        RemoteAddr::V4 { ip4: 0x0a00_0001, port },
    )
}

#[test]
fn no_argument_selects_the_default_below_home() {
    let loc = config_location(&args(&["mane"]), home()).ok().unwrap();
    assert_eq!(loc.path.as_str(), "/home/u/.config/mane/config.toml");
    assert_eq!(loc.dir.as_str(), "/home/u/.config/mane");
    assert_eq!(DEFAULT_CONFIG_PATH, ".config/mane/config.toml");
}

#[test]
fn no_program_name_also_selects_the_default() {
    let loc = config_location(&args(&[]), home()).ok().unwrap();
    assert_eq!(loc.path.as_str(), "/home/u/.config/mane/config.toml");
}

#[test]
fn short_and_long_option_name_the_file() {
    let loc = config_location(&args(&["mane", "-c", "/etc/mane/sync.toml"]), home()).ok().unwrap();
    assert_eq!(loc.path.as_str(), "/etc/mane/sync.toml");
    assert_eq!(loc.dir.as_str(), "/etc/mane");
    let loc = config_location(&args(&["mane", "--config", "conf.toml", "ignored"]), None).ok().unwrap();
    assert_eq!(loc.path.as_str(), "conf.toml");
    assert_eq!(loc.dir.as_str(), "");
}

#[test]
fn option_without_value_is_refused() {
    let e = config_location(&args(&["mane", "-c"]), home()).err().unwrap();
    assert!(matches!(e, ConfigError::InvalidArg(None)));
    assert_eq!(e.message(), "no argument passed");
}

#[test]
fn unknown_argument_is_refused() {
    let e = config_location(&args(&["mane", "-x", "file"]), home()).err().unwrap();
    assert!(matches!(&e, ConfigError::InvalidArg(Some(a)) if a == "-x"));
    assert_eq!(e.message(), "invalid argument passed: -x");
}

#[test]
fn missing_home_is_reported() {
    let e = config_location(&args(&["mane"]), None).err().unwrap();
    assert!(matches!(e, ConfigError::HomeDirNotFound));
    assert_eq!(e.message(), "unable to determine home directory");
}

#[test]
fn root_as_config_path_has_no_parent() {
    let e = config_location(&args(&["mane", "-c", "/"]), home()).err().unwrap();
    assert!(matches!(&e, ConfigError::ParentNotFound(p) if p.as_str() == "/"));
    assert_eq!(e.message(), "error determining parent path for /");
}

#[test]
fn syncs_compare_by_path_components_and_address() {
    let a = vec![sync("/src/a", "/dst/a", 22), sync("/src/b", "/dst/b", 22)];
    let b = vec![sync("/src//a/", "/dst/a", 22), sync("/src/b", "/dst/./b", 22)];
    assert!(syncs_equal(&a, &b));
    let c = vec![sync("/src/a", "/dst/a", 22), sync("/src/b", "/dst/b", 2222)];
    assert!(!syncs_equal(&a, &c));
    let d = vec![sync("/src/a", "/dst/a", 22)];
    assert!(!syncs_equal(&a, &d));
    assert!(syncs_equal(&vec![], &vec![]));
}

#[test]
fn configuration_copy_and_access() {
    let c = Config::new(vec![sync("/src/a", "/dst/a", 22)]);
    let d = c.duplicate();
    assert!(syncs_equal(c.syncs(), d.syncs()));
    assert_eq!(Config::empty().syncs().len(), 0);
    let s = sync("/x/y", "/z", 22);
    assert!(s.same_as(&s.duplicate()));
}
