//! Rebuilder behaviour: batch classification, environment reloads, and
//! the open-browser URL.

use mdbook_incremental_preview::git_ignore::GitignoreBinding;
use mdbook_incremental_preview::rebuilding::{
    BatchDecision, BookData, HtmlConfigModel, Rebuilder,
};
use mdbook_incremental_preview::rendering::{
    BookItemModel, BookModel, ChapterModel, HtmlHbsState,
};

fn html_config(js: Vec<&str>, css: Vec<&str>, input_404: Option<&str>) -> HtmlConfigModel {
    HtmlConfigModel {
        theme: None,
        smart_punctuation: false,
        additional_css: css.into_iter().map(String::from).collect(),
        additional_js: js.into_iter().map(String::from).collect(),
        input_404: input_404.map(String::from),
    }
}

fn chapter(name: &str, content: &str, source_path: Option<&str>) -> BookItemModel {
    BookItemModel::Chapter(ChapterModel {
        name: name.to_string(),
        content: content.to_string(),
        source_path: source_path.map(String::from),
    })
}

fn built_rebuilder() -> Rebuilder {
    let mut r = Rebuilder::new(
        "/book".to_string(),
        "/tmp/build".to_string(),
        "127.0.0.1:3000".to_string(),
        Some("/book/src/intro.md".to_string()),
    );
    let book = BookModel {
        sections: vec![
            chapter("Intro", "# Intro", Some("intro.md")),
            chapter("Draft", "unwritten", None),
            chapter("One", "# One", Some("ch1.md")),
        ],
    };
    let mut hbs = HtmlHbsState::new();
    hbs.full_render(&book, "/book/src", false);
    let data = BookData {
        book,
        reload: true,
        src_dir: "/book/src".to_string(),
        extra_watch_dirs: vec![],
        html_config: html_config(vec![], vec![], None),
        theme_dir: "/book/theme".to_string(),
        hbs_state: hbs,
    };
    r.apply_new_book(data);
    r
}

#[test]
fn new_rebuilder_watches_book_toml_beside_root() {
    let r = Rebuilder::new("/book".to_string(), "/b".to_string(), "a".to_string(), None);
    assert_eq!(r.book_toml, "/book/book.toml");
    assert_eq!(r.src_dir, "");
}

#[test]
fn gitignore_batch_only_reloads_ignore() {
    let mut r = built_rebuilder();
    let matcher = ignore::gitignore::GitignoreBuilder::new("/book").build().unwrap();
    r.set_gitignore(Some(GitignoreBinding {
        matcher,
        gitignore_path: "/book/.gitignore".to_string(),
        ignore_root: "/book".to_string(),
    }));
    let batch = vec!["/book/.gitignore".to_string()];
    match r.classify_changed_paths(&batch) {
        BatchDecision::ReloadIgnore => {},
        other => panic!("expected an ignore reload, got {:?}", other),
    }
}

#[test]
fn book_toml_forces_full_rebuild_with_env_reload() {
    let r = built_rebuilder();
    let batch = vec!["/book/book.toml".to_string()];
    match r.classify_changed_paths(&batch) {
        BatchDecision::FullRebuild(reload) => assert!(reload),
        other => panic!("expected a full rebuild, got {:?}", other),
    }
}

#[test]
fn summary_change_forces_full_rebuild() {
    let r = built_rebuilder();
    let batch = vec!["/book/src/SUMMARY.md".to_string()];
    match r.classify_changed_paths(&batch) {
        BatchDecision::FullRebuild(reload) => assert!(!reload),
        other => panic!("expected a full rebuild, got {:?}", other),
    }
}

#[test]
fn theme_change_forces_full_rebuild_without_patches() {
    let r = built_rebuilder();
    let batch = vec!["/book/theme/index.hbs".to_string()];
    match r.classify_changed_paths(&batch) {
        BatchDecision::FullRebuild(reload) => assert!(!reload),
        other => panic!("expected a full rebuild, got {:?}", other),
    }
}

#[test]
fn chapter_batches_patch_only_known_chapters() {
    let r = built_rebuilder();
    let batch = vec![
        "/book/src/intro.md".to_string(),
        "/book/src/unknown.md".to_string(),
        "/book/src/ch1.md".to_string(),
    ];
    match r.classify_changed_paths(&batch) {
        BatchDecision::Patch(paths) => {
            assert_eq!(paths, vec!["/book/src/intro.md".to_string(), "/book/src/ch1.md".to_string()]);
        },
        other => panic!("expected patches, got {:?}", other),
    }
}

#[test]
fn modified_content_patches_tracked_chapters_only() {
    let r = built_rebuilder();
    let task = r
        .on_modified_content("/book/src/intro.md", "# Edited".to_string())
        .expect("tracked chapter");
    assert_eq!(task.path, "/book/src/intro.md");
    assert_eq!(task.chapter_name, "Intro");
    assert_eq!(task.content, "# Edited");
    assert!(r.on_modified_content("/book/src/nope.md", "x".to_string()).is_none());
}

#[test]
fn additional_js_change_reaches_server_but_not_watcher() {
    let r = built_rebuilder();
    let data = BookData {
        book: BookModel { sections: vec![] },
        reload: true,
        src_dir: "/book/src".to_string(),
        extra_watch_dirs: vec![],
        html_config: html_config(vec!["extra.js"], vec![], None),
        theme_dir: "/book/theme".to_string(),
        hbs_state: HtmlHbsState::new(),
    };
    let plan = r.reload_plan(&data);
    assert!(!plan.reload_watcher);
    let si = plan.serve_info.expect("server inputs changed");
    assert_eq!(si.additional_js, vec!["extra.js".to_string()]);
    assert_eq!(si.src_dir, "/book/src");
    assert_eq!(si.file_404, "/tmp/build/404.html");
}

#[test]
fn source_dir_change_reloads_watcher_and_server() {
    let r = built_rebuilder();
    let data = BookData {
        book: BookModel { sections: vec![] },
        reload: true,
        src_dir: "/book/docs".to_string(),
        extra_watch_dirs: vec![],
        html_config: html_config(vec![], vec![], Some("missing.md")),
        theme_dir: "/book/theme".to_string(),
        hbs_state: HtmlHbsState::new(),
    };
    let plan = r.reload_plan(&data);
    assert!(plan.reload_watcher);
    let si = plan.serve_info.expect("server inputs changed");
    assert_eq!(si.file_404, "/tmp/build/missing.html");
}

#[test]
fn unchanged_environment_needs_nothing() {
    let r = built_rebuilder();
    let data = BookData {
        book: BookModel { sections: vec![] },
        reload: true,
        src_dir: "/book/src".to_string(),
        extra_watch_dirs: vec![],
        html_config: html_config(vec![], vec![], None),
        theme_dir: "/book/theme".to_string(),
        hbs_state: HtmlHbsState::new(),
    };
    let plan = r.reload_plan(&data);
    assert!(!plan.reload_watcher);
    assert!(plan.serve_info.is_none());
}

#[test]
fn apply_new_book_moves_summary_with_source_dir() {
    let mut r = built_rebuilder();
    assert_eq!(r.mutables.summary_md, "/book/src/SUMMARY.md");
    let data = BookData {
        book: BookModel { sections: vec![] },
        reload: true,
        src_dir: "/book/docs".to_string(),
        extra_watch_dirs: vec![],
        html_config: html_config(vec![], vec![], None),
        theme_dir: "/book/theme".to_string(),
        hbs_state: HtmlHbsState::new(),
    };
    r.apply_new_book(data);
    assert_eq!(r.src_dir, "/book/docs");
    assert_eq!(r.mutables.summary_md, "/book/docs/SUMMARY.md");
}

#[test]
fn browser_opens_at_chapter_page_after_first_build() {
    let mut fresh = Rebuilder::new(
        "/book".to_string(),
        "/b".to_string(),
        "127.0.0.1:3000".to_string(),
        Some("/book/src/intro.md".to_string()),
    );
    // No rebuild has landed yet: the request stays pending.
    assert!(fresh.maybe_open_browser().is_none());

    let mut r = built_rebuilder();
    let url = r.maybe_open_browser().expect("a rebuild has landed");
    assert_eq!(url, "http://127.0.0.1:3000/intro.html");
    // The request was consumed.
    assert!(r.maybe_open_browser().is_none());
}
