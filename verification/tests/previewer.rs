//! Previewer behaviour: version ordering, the ignored-paths set, and
//! the subsystem lifecycle.

use mdbook_incremental_preview::previewing::{PreviewAction, PreviewInfo, Previewer};

#[test]
fn out_of_order_modification_is_dropped() {
    let mut p = Previewer::new();
    p.running = true;
    let a2 = p.modified_content("/b/src/intro.md".to_string(), 2, "a".to_string());
    assert_eq!(a2.len(), 1);
    match &a2[0] {
        PreviewAction::ForwardModified { path, content } => {
            assert_eq!(path, "/b/src/intro.md");
            assert_eq!(content, "a");
        },
        other => panic!("unexpected action {:?}", other),
    }
    let a1 = p.modified_content("/b/src/intro.md".to_string(), 1, "b".to_string());
    assert!(a1.is_empty());
    let a3 = p.modified_content("/b/src/intro.md".to_string(), 3, "c".to_string());
    assert_eq!(a3.len(), 1);
}

#[test]
fn modifications_without_subsystems_update_versions_silently() {
    let mut p = Previewer::new();
    assert!(!p.running);
    let actions = p.modified_content("/b/x.md".to_string(), 5, "text".to_string());
    assert!(actions.is_empty());
    // The version was still recorded: an older buffer stays dropped.
    p.running = true;
    let old = p.modified_content("/b/x.md".to_string(), 4, "stale".to_string());
    assert!(old.is_empty());
}

#[test]
fn opened_tracks_maximum_version_and_ignores_path() {
    let mut p = Previewer::new();
    assert!(!p.is_ignored("/b/a.md"));
    p.opened("/b/a.md".to_string(), 7);
    assert!(p.is_ignored("/b/a.md"));
    p.opened("/b/a.md".to_string(), 3);
    p.running = true;
    // Version 7 still stands: only something above it is accepted.
    assert!(p.modified_content("/b/a.md".to_string(), 7, "x".to_string()).is_empty());
    assert_eq!(p.modified_content("/b/a.md".to_string(), 8, "y".to_string()).len(), 1);
}

#[test]
fn closed_forgets_version_and_ignore_entry() {
    let mut p = Previewer::new();
    p.opened("/b/a.md".to_string(), 9);
    p.closed("/b/a.md".to_string());
    assert!(!p.is_ignored("/b/a.md"));
    p.running = true;
    // After closing, even version 1 is accepted again.
    assert_eq!(p.modified_content("/b/a.md".to_string(), 1, "z".to_string()).len(), 1);
}

#[test]
fn open_preview_starts_once_then_forwards_browser_requests() {
    let mut p = Previewer::new();
    let start = p.open_preview(Some("127.0.0.1:3000".to_string()), None);
    assert_eq!(start.len(), 1);
    match &start[0] {
        PreviewAction::StartSubsystems { open_browser_at } => {
            // The initial browser-at request (the site root) is taken.
            assert_eq!(open_browser_at.as_deref(), Some(""));
        },
        other => panic!("unexpected action {:?}", other),
    }
    assert!(p.running);
    let again = p.open_preview(None, Some("/b/src/ch.md".to_string()));
    assert_eq!(again.len(), 1);
    match &again[0] {
        PreviewAction::ForwardOpenBrowser(path) => assert_eq!(path, "/b/src/ch.md"),
        other => panic!("unexpected action {:?}", other),
    }
}

#[test]
fn changed_book_root_restarts_running_subsystems() {
    let mut p = Previewer::new();
    p.open_preview(None, None);
    let unchanged = p.handle_cast(PreviewInfo::BookRoot(String::new()));
    assert!(unchanged.is_empty());
    let actions = p.handle_cast(PreviewInfo::BookRoot("/book".to_string()));
    assert_eq!(actions.len(), 2);
    assert!(matches!(actions[0], PreviewAction::StopSubsystems));
    assert!(matches!(actions[1], PreviewAction::StartSubsystems { .. }));
    assert_eq!(p.book_root, "/book");
}

#[test]
fn stop_preview_stops() {
    let mut p = Previewer::new();
    p.open_preview(None, None);
    let actions = p.handle_cast(PreviewInfo::StopPreview);
    assert_eq!(actions.len(), 1);
    assert!(matches!(actions[0], PreviewAction::StopSubsystems));
    assert!(!p.running);
}

#[test]
fn messages_dispatch_through_handle_cast() {
    let mut p = Previewer::new();
    p.running = true;
    p.handle_cast(PreviewInfo::Opened { path: "/b/a.md".to_string(), version: 1 });
    assert!(p.is_ignored("/b/a.md"));
    let actions = p.handle_cast(PreviewInfo::ModifiedContent {
        path: "/b/a.md".to_string(),
        version: 2,
        content: "hello".to_string(),
    });
    assert_eq!(actions.len(), 1);
    p.handle_cast(PreviewInfo::Closed("/b/a.md".to_string()));
    assert!(!p.is_ignored("/b/a.md"));
}

#[test]
fn largest_version_blocks_all_later_buffers() {
    let mut p = Previewer::new();
    p.running = true;
    let first = p.modified_content("/b/a.md".to_string(), i32::MAX, "x".to_string());
    assert_eq!(first.len(), 1);
    let again = p.modified_content("/b/a.md".to_string(), i32::MAX, "y".to_string());
    assert!(again.is_empty());
}

#[test]
fn fresh_previewer_serves_at_the_loopback_default() {
    let p = Previewer::new();
    assert_eq!(p.socket_address, "127.0.0.1:3000");
    assert!(!p.running);
    assert_eq!(p.open_browser_at.as_deref(), Some(""));
}
