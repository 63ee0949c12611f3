//! Patch registry behaviour: publishing, idempotence, rebuild
//! sentinels, and index-path resolution.

use mdbook_incremental_preview::patch_registry::{
    PatchRegistry, PatchRegistryQuery, PatchRegistryRequest, PatchRegistryResponse, ProcessCfg,
};

fn cfg() -> ProcessCfg {
    ProcessCfg { smart_punctuation: false }
}

#[test]
fn new_patch_renders_and_publishes() {
    let mut reg = PatchRegistry::new();
    let note = reg
        .new_patch("intro.html".to_string(), "# Hi".to_string())
        .expect("first patch publishes");
    assert_eq!(note.path, "intro.html");
    // The published body is rendered HTML, not the Markdown handed in.
    assert_ne!(note.html, "# Hi");
    assert!(note.html.contains("<h1"));
    assert!(note.html.contains("Hi"));
}

#[test]
fn identical_markdown_publishes_at_most_once() {
    let mut reg = PatchRegistry::new();
    let first = reg.new_patch("intro.html".to_string(), "# Hi".to_string());
    assert!(first.is_some());
    let second = reg.new_patch("intro.html".to_string(), "# Hi".to_string());
    assert!(second.is_none());
    let third = reg.new_patch("intro.html".to_string(), "changed".to_string());
    assert!(third.is_some());
}

#[test]
fn empty_markdown_creates_silent_entry() {
    let mut reg = PatchRegistry::new();
    let note = reg.new_patch("a.html".to_string(), String::new());
    assert!(note.is_none());
    assert!(reg.has_patch("a.html".to_string()));
}

#[test]
fn rebuild_sends_one_sentinel_per_entry_then_forgets() {
    let mut reg = PatchRegistry::new();
    reg.new_patch("a.html".to_string(), "alpha".to_string());
    reg.new_patch("b.html".to_string(), "beta".to_string());
    let notes = reg.rebuild(Some("intro.md".to_string()), cfg());
    assert_eq!(notes.len(), 2);
    let mut paths: Vec<&str> = notes.iter().map(|n| n.path.as_str()).collect();
    paths.sort();
    assert_eq!(paths, vec!["a.html", "b.html"]);
    for n in &notes {
        assert_eq!(n.html, "__RELOAD");
    }
    assert!(!reg.has_patch("a.html".to_string()));
    assert!(!reg.has_patch("b.html".to_string()));
}

#[test]
fn rebuild_without_index_keeps_previous_index() {
    let mut reg = PatchRegistry::new();
    reg.rebuild(Some("intro.md".to_string()), cfg());
    reg.rebuild(None, cfg());
    // The index path survived: the empty path still resolves to it.
    let sub = reg.watch(String::new());
    assert_eq!(sub.path, "intro.html");
}

#[test]
fn watch_at_root_resolves_to_index() {
    let mut reg = PatchRegistry::new();
    reg.rebuild(Some("intro.md".to_string()), cfg());
    let at_root = reg.watch(String::new());
    assert_eq!(at_root.path, "intro.html");
    let note = reg
        .new_patch("intro.html".to_string(), "content".to_string())
        .expect("publishes");
    let direct = reg.watch("intro.html".to_string());
    let at_root_again = reg.watch(String::new());
    assert_eq!(direct.path, at_root_again.path);
    assert_eq!(direct.current, note.html);
    assert_eq!(at_root_again.current, note.html);
}

#[test]
fn watch_is_idempotent_for_entry_creation() {
    let mut reg = PatchRegistry::new();
    let first = reg.watch("page.html".to_string());
    assert_eq!(first.current, "");
    assert!(reg.has_patch("page.html".to_string()));
    reg.watch("page.html".to_string());
    // Still exactly one entry: a publish reaches it, and a rebuild
    // produces exactly one sentinel.
    let notes = reg.rebuild(None, cfg());
    assert_eq!(notes.len(), 1);
    assert_eq!(notes[0].path, "page.html");
}

#[test]
fn requests_and_queries_dispatch() {
    let mut reg = PatchRegistry::new();
    let notes = reg.handle_request(PatchRegistryRequest::NewPatch(
        "a.html".to_string(),
        "text".to_string(),
    ));
    assert_eq!(notes.len(), 1);
    match reg.handle_query(PatchRegistryQuery::GetHasPatch("a.html".to_string())) {
        PatchRegistryResponse::HasPatch(b) => assert!(b),
        other => panic!("unexpected response {:?}", other),
    }
    match reg.handle_query(PatchRegistryQuery::Watch("a.html".to_string())) {
        PatchRegistryResponse::WatchReceiver(sub) => {
            assert_eq!(sub.path, "a.html");
            assert_eq!(sub.current, notes[0].html);
        },
        other => panic!("unexpected response {:?}", other),
    }
    let notes = reg.handle_request(PatchRegistryRequest::Clear);
    assert!(notes.is_empty());
    match reg.handle_query(PatchRegistryQuery::GetHasPatch("a.html".to_string())) {
        PatchRegistryResponse::HasPatch(b) => assert!(!b),
        other => panic!("unexpected response {:?}", other),
    }
}

#[test]
fn smart_punctuation_changes_rendering() {
    let mut plain = PatchRegistry::new();
    plain.rebuild(None, ProcessCfg { smart_punctuation: false });
    let mut smart = PatchRegistry::new();
    smart.rebuild(None, ProcessCfg { smart_punctuation: true });
    let md = "it's \"quoted\"";
    let a = plain.new_patch("p.html".to_string(), md.to_string()).unwrap();
    let b = smart.new_patch("p.html".to_string(), md.to_string()).unwrap();
    assert_ne!(a.html, b.html);
}
