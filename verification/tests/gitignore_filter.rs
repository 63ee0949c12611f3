//! Gitignore filtering of changed-path batches.

use mdbook_incremental_preview::git_ignore::{
    ancestor_candidates, find_ignore_path, first_existing, GitignoreBinding,
};
use mdbook_incremental_preview::watch_files::{
    dedup_paths, recv_changed_paths,
};

fn scratch_binding() -> GitignoreBinding {
    let mut builder = ignore::gitignore::GitignoreBuilder::new("/book");
    builder.add_line(None, "scratch/").unwrap();
    builder.add_line(None, "*.tmp").unwrap();
    GitignoreBinding {
        matcher: builder.build().unwrap(),
        gitignore_path: "/book/.gitignore".to_string(),
        ignore_root: "/book".to_string(),
    }
}

#[test]
fn ignored_paths_never_reach_the_rebuilder() {
    let binding = Some(scratch_binding());
    let batch = vec![
        "/book/src/scratch/ignored.md".to_string(),
        "/book/src/kept.md".to_string(),
        "/book/note.tmp".to_string(),
    ];
    let delivered = recv_changed_paths("/book", &binding, &batch);
    assert_eq!(delivered, vec!["/book/src/kept.md".to_string()]);
}

#[test]
fn paths_outside_the_book_root_are_always_kept() {
    let binding = Some(scratch_binding());
    let batch = vec!["/elsewhere/scratch/file.tmp".to_string()];
    let delivered = recv_changed_paths("/book", &binding, &batch);
    assert_eq!(delivered, batch);
}

#[test]
fn without_a_gitignore_only_duplicates_are_dropped() {
    let batch = vec![
        "/book/src/a.md".to_string(),
        "/book/src/b.md".to_string(),
        "/book/src/a.md".to_string(),
    ];
    let delivered = recv_changed_paths("/book", &None, &batch);
    assert_eq!(delivered, vec!["/book/src/a.md".to_string(), "/book/src/b.md".to_string()]);
}

#[test]
fn dedup_keeps_first_occurrences_in_order() {
    let batch = vec![
        "/x".to_string(),
        "/y".to_string(),
        "/x".to_string(),
        "/z".to_string(),
        "/y".to_string(),
    ];
    assert_eq!(
        dedup_paths(&batch),
        vec!["/x".to_string(), "/y".to_string(), "/z".to_string()],
    );
}

#[test]
fn ignore_file_search_names_the_ignore_file() {
    // Whether an ignore file exists depends on the machine; what is
    // checked is the shape of a found path.
    if let Some(p) = find_ignore_path("/definitely/missing/book/root") {
        assert!(p.ends_with(".gitignore"));
    }
}

#[test]
fn ancestor_candidates_walk_nearest_first() {
    assert_eq!(
        ancestor_candidates("/a/b"),
        vec![
            "/a/b/.gitignore".to_string(),
            "/a/.gitignore".to_string(),
            "/.gitignore".to_string(),
        ],
    );
    assert_eq!(
        ancestor_candidates("a"),
        vec!["a/.gitignore".to_string(), ".gitignore".to_string()],
    );
}

#[test]
fn first_existing_picks_the_nearest_hit() {
    let cands = vec!["/x/.gitignore".to_string(), "/.gitignore".to_string()];
    assert_eq!(first_existing(&cands, &vec![false, true]).unwrap(), "/.gitignore");
    assert_eq!(first_existing(&cands, &vec![true, true]).unwrap(), "/x/.gitignore");
    assert!(first_existing(&cands, &vec![false, false]).is_none());
}
