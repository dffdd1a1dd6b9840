use easydot::paths::{
    backup_path, expand, has_home_marker, join, resolve_destination, resolve_source, source_root,
    ResolveError,
};

#[test]
fn source_is_rooted_under_the_tree() {
    assert_eq!(resolve_source("/home/u/dotfiles", "vimrc"), "/home/u/dotfiles/vimrc");
    assert_eq!(resolve_source("/home/u/dotfiles", "config/nvim"), "/home/u/dotfiles/config/nvim");
}

#[test]
fn tree_root_is_the_dotfiles_folder() {
    assert_eq!(source_root("/home/u"), "/home/u/dotfiles");
    assert_eq!(source_root(""), "/dotfiles");
}

#[test]
fn join_puts_one_separator_between() {
    assert_eq!(join("/a", "b"), "/a/b");
    assert_eq!(join("/a/", "b"), "/a//b");
    assert_eq!(join("", ""), "/");
}

#[test]
fn home_marker_is_expanded() {
    assert_eq!(
        resolve_destination("~/.config/app", Some("/home/u")),
        Ok(String::from("/home/u/.config/app"))
    );
}

#[test]
fn every_marker_is_expanded() {
    assert_eq!(resolve_destination("~/a/~", Some("/h")), Ok(String::from("/h/a//h")));
    assert_eq!(resolve_destination("~~", Some("ab")), Ok(String::from("abab")));
    assert_eq!(expand("x~y~z", "-"), "x-y-z");
}

#[test]
fn marker_in_the_home_directory_is_not_expanded_again() {
    assert_eq!(expand("~/x", "/~"), "/~/x");
}

#[test]
fn expansion_keeps_other_characters() {
    assert_eq!(expand("", "/h"), "");
    assert_eq!(expand("/etc/ä/ß", "/h"), "/etc/ä/ß");
    assert_eq!(expand("~", ""), "");
}

#[test]
fn marker_is_found_anywhere() {
    assert!(has_home_marker("~"));
    assert!(has_home_marker("/a/~b"));
    assert!(!has_home_marker("/a/b"));
    assert!(!has_home_marker(""));
}

#[test]
fn destination_without_marker_needs_no_home() {
    assert_eq!(resolve_destination("/etc/app", None), Ok(String::from("/etc/app")));
    assert_eq!(resolve_destination("/etc/app", Some("/home/u")), Ok(String::from("/etc/app")));
}

#[test]
fn marker_without_home_is_an_error() {
    assert_eq!(
        resolve_destination("~/.vimrc", None),
        Err(ResolveError::HomeDirectoryUnavailable)
    );
}

#[test]
fn backup_suffix_follows_the_whole_path() {
    assert_eq!(backup_path("/home/u/.vimrc"), "/home/u/.vimrc.edbackup");
    assert_eq!(backup_path("/home/u/notes.txt"), "/home/u/notes.txt.edbackup");
    assert_eq!(backup_path("/home/u/dir/"), "/home/u/dir/.edbackup");
    assert_eq!(backup_path(""), ".edbackup");
}
