//! The edit-to-patch pipeline end to end: an editor buffer flows
//! through the previewer, the rebuilder and the patch machinery into a
//! published HTML body, without touching the build directory.

use mdbook_incremental_preview::patch_registry::{PatchRegistry, ProcessCfg};
use mdbook_incremental_preview::previewing::{PreviewAction, Previewer};
use mdbook_incremental_preview::rebuilding::{BookData, HtmlConfigModel, Rebuilder};
use mdbook_incremental_preview::rendering::{
    extract_patched_markdown, prepare_patch, BookItemModel, BookModel, ChapterModel,
    HtmlHbsState,
};

fn one_chapter_book() -> BookModel {
    BookModel {
        sections: vec![BookItemModel::Chapter(ChapterModel {
            name: "Intro".to_string(),
            content: "unedited".to_string(),
            source_path: Some("intro.md".to_string()),
        })],
    }
}

#[test]
fn simple_edit_reaches_subscribers() {
    // The previewer runs and the first rebuild has landed.
    let mut previewer = Previewer::new();
    previewer.open_preview(Some("127.0.0.1:3000".to_string()), None);

    let mut rebuilder = Rebuilder::new(
        "/book".to_string(),
        "/tmp/build".to_string(),
        "127.0.0.1:3000".to_string(),
        None,
    );
    let book = one_chapter_book();
    let mut hbs = HtmlHbsState::new();
    hbs.full_render(&book, "/book/src", false);
    let index_path = hbs.index_path.clone();
    let mut registry = PatchRegistry::new();
    registry.rebuild(index_path, ProcessCfg { smart_punctuation: false });
    rebuilder.apply_new_book(BookData {
        book,
        reload: true,
        src_dir: "/book/src".to_string(),
        extra_watch_dirs: vec![],
        html_config: HtmlConfigModel {
            theme: None,
            smart_punctuation: false,
            additional_css: vec![],
            additional_js: vec![],
            input_404: None,
        },
        theme_dir: "/book/theme".to_string(),
        hbs_state: hbs,
    });

    // A browser subscribes to the chapter page before the edit.
    let before = registry.watch("intro.html".to_string());
    assert_eq!(before.current, "");

    // The editor sends the whole buffer with version 1.
    let actions = previewer.modified_content(
        "/book/src/intro.md".to_string(),
        1,
        "# Hi".to_string(),
    );
    assert_eq!(actions.len(), 1);
    let (path, content) = match &actions[0] {
        PreviewAction::ForwardModified { path, content } => (path.clone(), content.clone()),
        other => panic!("unexpected action {:?}", other),
    };

    // The rebuilder resolves the tracked chapter and prepares a patch.
    let task = rebuilder.on_modified_content(path.as_str(), content).expect("tracked");
    let job = prepare_patch(
        task.path.as_str(),
        rebuilder.src_dir.as_str(),
        task.chapter_name.as_str(),
        task.content,
    )
    .expect("under the source directory");
    assert_eq!(job.html_path, "intro.html");

    // With no preprocessors configured the synthetic book passes
    // through unchanged.
    let preprocessed = BookModel { sections: vec![BookItemModel::Chapter(job.chapter)] };
    let markdown = extract_patched_markdown(preprocessed, job.relative_path.as_str())
        .expect("one matching chapter");
    assert_eq!(markdown, "# Hi");

    // The registry renders and publishes; the subscriber sees the
    // rendering of the buffer, not a file from the build directory.
    let note = registry.new_patch(job.html_path, markdown).expect("publishes");
    assert_eq!(note.path, "intro.html");
    assert!(note.html.contains("Hi"));
    assert!(note.html.contains("<h1"));
    let after = registry.watch("intro.html".to_string());
    assert_eq!(after.current, note.html);
    // The site root subscribes to the same page.
    let at_root = registry.watch(String::new());
    assert_eq!(at_root.path, "intro.html");
    assert_eq!(at_root.current, note.html);
}

#[test]
fn summary_change_reloads_every_subscriber_then_new_chapter_watchable() {
    let mut registry = PatchRegistry::new();
    registry.new_patch("intro.html".to_string(), "one".to_string()).unwrap();
    let notes = registry.rebuild(
        Some("intro.md".to_string()),
        ProcessCfg { smart_punctuation: false },
    );
    assert_eq!(notes.len(), 1);
    assert_eq!(notes[0].path, "intro.html");
    assert_eq!(notes[0].html, "__RELOAD");
    let sub = registry.watch("chapter_2.html".to_string());
    assert_eq!(sub.path, "chapter_2.html");
    assert!(registry.has_patch("chapter_2.html".to_string()));
}
