//! Path model behaviour on concrete values.

use mdbook_incremental_preview::build_book::theme_dir_of;
use mdbook_incremental_preview::pathstr::{
    path_ends_with_md, path_is_abs, path_join, path_parent, path_starts_with, path_strip_prefix,
    path_trim_leading_slashes, path_with_html_ext, str_eq, vec_contains_str,
};

#[test]
fn absolute_paths() {
    assert!(path_is_abs("/a/b"));
    assert!(!path_is_abs("a/b"));
    assert!(!path_is_abs(""));
}

#[test]
fn prefix_is_component_wise() {
    assert!(path_starts_with("/a/b", "/a"));
    assert!(path_starts_with("/a/b", "/a/b"));
    assert!(!path_starts_with("/a/bc", "/a/b"));
    assert!(path_starts_with("/a/b", ""));
    assert!(path_starts_with("/a", "/"));
    assert!(!path_starts_with("a", "/"));
    assert!(!path_starts_with("/a", "/a/b"));
}

#[test]
fn strip_prefix_values() {
    assert_eq!(path_strip_prefix("/book/src/intro.md", "/book/src").unwrap(), "intro.md");
    assert_eq!(path_strip_prefix("/book/src", "/book/src").unwrap(), "");
    assert_eq!(path_strip_prefix("/a/b", "/").unwrap(), "a/b");
    assert_eq!(path_strip_prefix("/a/b", "").unwrap(), "/a/b");
    assert!(path_strip_prefix("/other/x.md", "/book/src").is_none());
}

#[test]
fn join_values() {
    assert_eq!(path_join("/book", "src"), "/book/src");
    assert_eq!(path_join("", "src"), "src");
    assert_eq!(path_join("/", "a"), "/a");
}

#[test]
fn html_extension_values() {
    assert_eq!(path_with_html_ext("intro.md"), "intro.html");
    assert_eq!(path_with_html_ext("a/b"), "a/b.html");
    assert_eq!(path_with_html_ext(".gitignore"), ".gitignore.html");
    assert_eq!(path_with_html_ext("x/.hidden"), "x/.hidden.html");
    assert_eq!(path_with_html_ext("a.b.c"), "a.b.html");
    assert_eq!(path_with_html_ext("dir.d/plain"), "dir.d/plain.html");
}

#[test]
fn parent_values() {
    assert_eq!(path_parent("/a/b").unwrap(), "/a");
    assert_eq!(path_parent("/a").unwrap(), "/");
    assert_eq!(path_parent("a").unwrap(), "");
    assert!(path_parent("/").is_none());
    assert!(path_parent("").is_none());
}

#[test]
fn trim_and_md_suffix() {
    assert_eq!(path_trim_leading_slashes("//a/b"), "a/b");
    assert_eq!(path_trim_leading_slashes("a/b"), "a/b");
    assert_eq!(path_trim_leading_slashes("///"), "");
    assert!(path_ends_with_md("intro.md"));
    assert!(!path_ends_with_md("intro.html"));
    assert!(!path_ends_with_md("md"));
}

#[test]
fn string_helpers() {
    assert!(str_eq("abc", "abc"));
    assert!(!str_eq("abc", "abd"));
    let v = vec!["a".to_string(), "b".to_string()];
    assert!(vec_contains_str(&v, "b"));
    assert!(!vec_contains_str(&v, "c"));
}

#[test]
fn theme_dir_follows_configuration() {
    assert_eq!(theme_dir_of("/book", &Some("my-theme".to_string())), "/book/my-theme");
    assert_eq!(theme_dir_of("/book", &None), "/book/theme");
}
