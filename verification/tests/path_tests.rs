use mane::path::FsPath;

fn p(s: &str) -> FsPath {
    FsPath::from_text(s)
}

fn parent_text(s: &str) -> Option<String> {
    p(s).parent().map(|q| q.as_str().to_string())
}

#[test]
fn repeated_and_trailing_separators_name_the_same_path() {
    assert!(p("a/b").same_as(&p("a//b/")));
    assert!(p("/home/u/src").same_as(&p("/home//u/src/")));
}

#[test]
fn interior_cur_dir_is_dropped_but_leading_one_kept() {
    assert!(p("a/./b").same_as(&p("a/b")));
    assert!(!p("./a").same_as(&p("a")));
    assert!(p("./a").same_as(&p(".//a/.")));
}

#[test]
fn root_and_parent_dir_are_components() {
    assert!(!p("/a").same_as(&p("a")));
    assert!(!p("a/../b").same_as(&p("b")));
    assert!(!p("a/b").same_as(&p("a/c")));
    assert!(!p("a").same_as(&p("a/b")));
}

#[test]
fn parent_drops_the_final_component() {
    assert_eq!(parent_text("a/b"), Some("a".to_string()));
    assert_eq!(parent_text("/a"), Some("/".to_string()));
    assert_eq!(parent_text("a"), Some("".to_string()));
    assert_eq!(parent_text("./a"), Some(".".to_string()));
    assert_eq!(parent_text("a//b/"), Some("a".to_string()));
    assert_eq!(parent_text("a/./b"), Some("a".to_string()));
    assert_eq!(parent_text("/home/u/.config/mane/config.toml"), Some("/home/u/.config/mane".to_string()));
    assert_eq!(parent_text("a/.."), Some("a".to_string()));
    assert_eq!(parent_text("."), Some("".to_string()));
}

#[test]
fn root_and_empty_path_have_no_parent() {
    assert_eq!(parent_text("/"), None);
    assert_eq!(parent_text("//"), None);
    assert_eq!(parent_text(""), None);
}

#[test]
fn starts_with_compares_whole_components() {
    assert!(p("/home/u/dir/file").starts_with(&p("/home/u/dir")));
    assert!(p("/home/u/dir").starts_with(&p("/home/u/dir/")));
    assert!(!p("/home/u/dirx").starts_with(&p("/home/u/dir")));
    assert!(!p("/home").starts_with(&p("/home/u")));
    assert!(p("anything").starts_with(&p("")));
}

#[test]
fn join_puts_one_separator_between() {
    assert_eq!(p("/home/u").join(".config/mane/config.toml").as_str(), "/home/u/.config/mane/config.toml");
    assert_eq!(p("/home/u/").join("x").as_str(), "/home/u/x");
    assert_eq!(p("").join("x").as_str(), "x");
}

#[test]
fn join_with_absolute_path_replaces() {
    assert_eq!(p("/home/u").join("/etc/mane").as_str(), "/etc/mane");
}

#[test]
fn duplicate_keeps_text() {
    let q = p("a//b/");
    let d = q.duplicate();
    assert_eq!(d.as_str(), "a//b/");
    assert!(d.same_as(&q));
}

#[test]
fn path_lies_under_its_parent() {
    for s in ["a/b", "/a", "a", "./a", "a//b/", "/home/u/.config/mane/config.toml", "a/.."] {
        let q = p(s);
        let parent = q.parent().unwrap();
        assert!(q.starts_with(&parent), "{s}");
        assert!(!parent.same_as(&q), "{s}");
    }
}
