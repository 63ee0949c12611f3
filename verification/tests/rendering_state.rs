//! Render-state collection, byte-order-mark handling, and the patch
//! pipeline's shape checks.

use mdbook_incremental_preview::patch_registry::PatchRegistry;
use mdbook_incremental_preview::rendering::{
    extract_patched_markdown, prepare_patch, strip_bom, BookItemModel, BookModel, ChapterModel,
    HtmlHbsState,
};
use mdbook_incremental_preview::PreviewError;

fn chapter(name: &str, content: &str, source_path: Option<&str>) -> BookItemModel {
    BookItemModel::Chapter(ChapterModel {
        name: name.to_string(),
        content: content.to_string(),
        source_path: source_path.map(String::from),
    })
}

#[test]
fn full_render_records_non_draft_chapters_in_order() {
    let book = BookModel {
        sections: vec![
            BookItemModel::PartTitle("Part".to_string()),
            chapter("Draft", "later", None),
            chapter("Intro", "# Intro", Some("intro.md")),
            BookItemModel::Separator,
            chapter("One", "# One", Some("ch/one.md")),
        ],
    };
    let mut hbs = HtmlHbsState::new();
    hbs.full_render(&book, "/book/src", true);
    assert!(hbs.smart_punctuation);
    assert_eq!(hbs.path2ctxs.len(), 2);
    assert_eq!(hbs.path2ctxs[0].path, "/book/src/intro.md");
    assert_eq!(hbs.path2ctxs[0].ctx.chapter_name, "Intro");
    assert_eq!(hbs.path2ctxs[0].ctx.len_content, "# Intro".len());
    assert_eq!(hbs.path2ctxs[1].path, "/book/src/ch/one.md");
    // The first non-draft chapter is the index; the draft is not.
    assert_eq!(hbs.index_path.as_deref(), Some("intro.md"));
    // Draft exclusion: no record for the draft chapter.
    assert!(!hbs.contains_path("/book/src/later"));
    assert!(hbs.contains_path("/book/src/intro.md"));
    assert!(hbs.lookup("/book/src/missing.md").is_none());
}

#[test]
fn rerender_without_chapters_keeps_previous_index() {
    let mut hbs = HtmlHbsState::new();
    let first = BookModel { sections: vec![chapter("A", "a", Some("a.md"))] };
    hbs.full_render(&first, "/s", false);
    assert_eq!(hbs.index_path.as_deref(), Some("a.md"));
    let empty = BookModel { sections: vec![] };
    hbs.full_render(&empty, "/s", false);
    assert_eq!(hbs.index_path.as_deref(), Some("a.md"));
    assert!(hbs.path2ctxs.is_empty());
}

#[test]
fn bom_is_stripped_once() {
    assert_eq!(strip_bom("\u{feff}# Hi".to_string()), "# Hi");
    assert_eq!(strip_bom("# Hi".to_string()), "# Hi");
    assert_eq!(strip_bom(String::new()), "");
    assert_eq!(strip_bom("\u{feff}".to_string()), "");
    assert_eq!(strip_bom("\u{feff}\u{feff}x".to_string()), "\u{feff}x");
}

#[test]
fn bom_loaded_chapter_publishes_identical_html() {
    let with_bom = strip_bom("\u{feff}# Hi".to_string());
    let without = strip_bom("# Hi".to_string());
    let mut reg_a = PatchRegistry::new();
    let mut reg_b = PatchRegistry::new();
    let a = reg_a.new_patch("intro.html".to_string(), with_bom).unwrap();
    let b = reg_b.new_patch("intro.html".to_string(), without).unwrap();
    assert_eq!(a.html, b.html);
}

#[test]
fn prepare_patch_resolves_under_source_dir() {
    let job = prepare_patch("/book/src/ch/one.md", "/book/src", "One", "text".to_string())
        .expect("inside the source directory");
    assert_eq!(job.relative_path, "ch/one.md");
    assert_eq!(job.html_path, "ch/one.html");
    assert_eq!(job.chapter.name, "One");
    assert_eq!(job.chapter.content, "text");
    assert_eq!(job.chapter.source_path.as_deref(), Some("ch/one.md"));
}

#[test]
fn prepare_patch_rejects_paths_outside_source_dir() {
    let err = prepare_patch("/elsewhere/one.md", "/book/src", "One", "text".to_string())
        .expect_err("outside the source directory");
    assert_eq!(err, PreviewError::InvalidPath);
}

#[test]
fn extract_accepts_exactly_one_matching_chapter() {
    let book = BookModel { sections: vec![chapter("One", "processed", Some("ch/one.md"))] };
    let md = extract_patched_markdown(book, "ch/one.md").expect("the right shape");
    assert_eq!(md, "processed");
}

#[test]
fn extract_rejects_wrong_shapes() {
    let empty = BookModel { sections: vec![] };
    assert_eq!(
        extract_patched_markdown(empty, "ch/one.md").expect_err("empty book"),
        PreviewError::PreprocessorShape,
    );
    let wrong_path = BookModel { sections: vec![chapter("One", "x", Some("other.md"))] };
    assert_eq!(
        extract_patched_markdown(wrong_path, "ch/one.md").expect_err("wrong source path"),
        PreviewError::PreprocessorShape,
    );
    let draft = BookModel { sections: vec![chapter("One", "x", None)] };
    assert_eq!(
        extract_patched_markdown(draft, "ch/one.md").expect_err("draft chapter"),
        PreviewError::PreprocessorShape,
    );
    let two = BookModel {
        sections: vec![
            chapter("One", "x", Some("ch/one.md")),
            chapter("Two", "y", Some("ch/two.md")),
        ],
    };
    assert_eq!(
        extract_patched_markdown(two, "ch/one.md").expect_err("two chapters"),
        PreviewError::PreprocessorShape,
    );
}
