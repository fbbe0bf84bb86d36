use symbolic::normalize_component;
use symbolic::parent_of;
use symbolic::PathError;

#[test]
fn it_parses_home() {
    let raw_sym = "~/.config";
    assert!(normalize_component(raw_sym, "/home/user", "/cur").unwrap().starts_with("/home/"));
}

#[test]
fn it_parses_cwd() {
    let current_sym = "./config";
    let cwd = "/some/work/dir";
    assert!(normalize_component(current_sym, "/home/user", cwd).unwrap().starts_with(cwd));
}

#[test]
fn home_expansion_is_textual_and_total() {
    let out = normalize_component("~/a~b", "/h", "/c").unwrap();
    assert_eq!(out, "/h/a/hb");
    assert!(!out.contains('~'));
}

#[test]
fn cwd_expansion_is_prefix_anchored() {
    let out = normalize_component("./config", "/h", "/cur").unwrap();
    assert_eq!(out, "/cur/config");
    let inner = normalize_component("/a/./b", "/h", "/cur").unwrap();
    assert_eq!(inner, "/a/./b");
}

#[test]
fn plain_paths_are_unchanged() {
    let out = normalize_component("/abs/path", "/h", "/c").unwrap();
    assert_eq!(out, "/abs/path");
    let rel = normalize_component("plain", "/h", "/c").unwrap();
    assert_eq!(rel, "plain");
}

#[test]
fn empty_path_is_rejected() {
    assert_eq!(normalize_component("", "/h", "/c"), Err(PathError::EmptyPath));
}

#[test]
fn parent_of_follows_path_shape() {
    assert_eq!(parent_of("/a/b"), Some("/a".to_string()));
    assert_eq!(parent_of("/a/b/"), Some("/a".to_string()));
    assert_eq!(parent_of("/a"), Some("/".to_string()));
    assert_eq!(parent_of("/"), None);
    assert_eq!(parent_of(""), None);
    assert_eq!(parent_of("a"), Some("".to_string()));
    assert_eq!(parent_of("a/b"), Some("a".to_string()));
}
