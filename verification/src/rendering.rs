//! Render-time state kept for patching.
//!
//! A full render walks the book in order, records for every non-draft
//! chapter its absolute source path, chapter name and content length, and
//! notes the first non-draft chapter as the index. A per-chapter patch
//! resolves the chapter under the source directory, runs it through the
//! preprocessors as a synthetic one-chapter book, and checks the shape of
//! what comes back.

use crate::pathstr::{
    is_path_prefix, path_join, path_join_spec, path_rest, path_strip_prefix, path_with_html_ext,
    with_html_ext_spec,
};
use crate::PreviewError;
use vstd::prelude::*;

verus! {

/// A chapter as the preview core reads it: name, raw Markdown content,
/// and the source path relative to the source directory (`None` marks a
/// draft).
#[derive(Clone, Debug)]
pub struct ChapterModel {
    pub name: String,
    pub content: String,
    pub source_path: Option<String>,
}

/// Mathematical model of a chapter.
pub ghost struct ChapterSpec {
    pub name: Seq<char>,
    pub content: Seq<char>,
    pub source_path: Option<Seq<char>>,
}

impl View for ChapterModel {
    type V = ChapterSpec;

    open spec fn view(&self) -> ChapterSpec {
        ChapterSpec {
            name: self.name@,
            content: self.content@,
            source_path: match self.source_path {
                Option::Some(p) => Option::Some(p@),
                Option::None => Option::None,
            },
        }
    }
}

/// One item of a book, in depth-first book order.
#[derive(Clone, Debug)]
pub enum BookItemModel {
    /// A chapter.
    Chapter(ChapterModel),
    /// A separator line in the table of contents.
    Separator,
    /// A part title.
    PartTitle(String),
}

/// Mathematical model of a book item.
pub ghost enum BookItemSpec {
    Chapter(ChapterSpec),
    Separator,
    PartTitle(Seq<char>),
}

impl View for BookItemModel {
    type V = BookItemSpec;

    open spec fn view(&self) -> BookItemSpec {
        match self {
            BookItemModel::Chapter(c) => BookItemSpec::Chapter(c@),
            BookItemModel::Separator => BookItemSpec::Separator,
            BookItemModel::PartTitle(t) => BookItemSpec::PartTitle(t@),
        }
    }
}

/// A book: its items flattened in book order.
#[derive(Clone, Debug)]
pub struct BookModel {
    pub sections: Vec<BookItemModel>,
}

impl View for BookModel {
    type V = Seq<BookItemSpec>;

    open spec fn view(&self) -> Seq<BookItemSpec> {
        self.sections@.map(|i: int, item: BookItemModel| item@)
    }
}

/// Per-chapter render context kept for patching: the chapter name and
/// the length of the content last rendered.
#[derive(Clone, Debug)]
pub struct CtxCore {
    pub chapter_name: String,
    pub len_content: usize,
}

/// One record of the render state: a chapter's absolute source path with
/// its context.
#[derive(Clone, Debug)]
pub struct PathCtx {
    pub path: String,
    pub ctx: CtxCore,
}

/// Mathematical model of one render-state record.
pub ghost struct PathCtxModel {
    pub path: Seq<char>,
    pub chapter_name: Seq<char>,
    pub len_content: int,
}

impl View for PathCtx {
    type V = PathCtxModel;

    open spec fn view(&self) -> PathCtxModel {
        PathCtxModel {
            path: self.path@,
            chapter_name: self.ctx.chapter_name@,
            len_content: self.ctx.len_content as int,
        }
    }
}

/// Mathematical model of the render state.
pub ghost struct HbsModel {
    pub entries: Seq<PathCtxModel>,
    pub smart: bool,
    pub index_path: Option<Seq<char>>,
}

/// The intermediate state of a full render kept for patching.
#[derive(Clone, Debug)]
pub struct HtmlHbsState {
    /// For every rendered (non-draft) chapter, keyed by absolute source
    /// path: its name and content length.
    pub path2ctxs: Vec<PathCtx>,
    /// Whether smart punctuation is enabled, needed for patch-time
    /// Markdown rendering.
    pub smart_punctuation: bool,
    /// Relative source path of the index chapter.
    pub index_path: Option<String>,
}

impl View for HtmlHbsState {
    type V = HbsModel;

    open spec fn view(&self) -> HbsModel {
        HbsModel {
            entries: self.path2ctxs@.map(|i: int, e: PathCtx| e@),
            smart: self.smart_punctuation,
            index_path: match self.index_path {
                Option::Some(p) => Option::Some(p@),
                Option::None => Option::None,
            },
        }
    }
}

/// The render-state records a book produces: one per non-draft chapter,
/// in book order, keyed by the source path joined under `src`.
pub open spec fn spec_collect_entries(items: Seq<BookItemSpec>, src: Seq<char>) -> Seq<
    PathCtxModel,
>
    decreases items.len(),
{
    if items.len() == 0 {
        Seq::empty()
    } else {
        let rest = spec_collect_entries(items.drop_last(), src);
        match items[items.len() - 1] {
            BookItemSpec::Chapter(c) => match c.source_path {
                Option::Some(sp) => rest.push(
                    PathCtxModel {
                        path: path_join_spec(src, sp),
                        chapter_name: c.name,
                        len_content: c.content.len() as int,
                    },
                ),
                Option::None => rest,
            },
            _ => rest,
        }
    }
}

/// The relative source path of the first non-draft chapter, if any.
pub open spec fn spec_first_chapter(items: Seq<BookItemSpec>) -> Option<Seq<char>>
    decreases items.len(),
{
    if items.len() == 0 {
        Option::None
    } else {
        match items[0] {
            BookItemSpec::Chapter(c) => match c.source_path {
                Option::Some(sp) => Option::Some(sp),
                Option::None => spec_first_chapter(items.drop_first()),
            },
            _ => spec_first_chapter(items.drop_first()),
        }
    }
}

/// No two render-state records share a source path.
pub open spec fn entries_unique(s: Seq<PathCtxModel>) -> bool {
    forall|i: int, j: int| 0 <= i < j < s.len() ==> s[i].path != s[j].path
}

/// Whether the render state has a record for `p`.
pub open spec fn has_ctx(m: HbsModel, p: Seq<char>) -> bool {
    exists|i: int| 0 <= i < m.entries.len() && m.entries[i].path == p
}

/// Index of the record for `p`; meaningful only when `has_ctx`.
pub open spec fn ctx_idx(m: HbsModel, p: Seq<char>) -> int {
    choose|i: int| 0 <= i < m.entries.len() && m.entries[i].path == p
}

impl HtmlHbsState {
    /// An empty render state.
    pub fn new() -> (r: Self)
        ensures
            r@.entries =~= Seq::<PathCtxModel>::empty(),
            r@.smart == false,
            r@.index_path is None,
    {
        let r = HtmlHbsState { path2ctxs: Vec::new(), smart_punctuation: false, index_path: None };
        proof {
            assert(r@.entries =~= Seq::<PathCtxModel>::empty());
        }
        r
    }

    /// Records the state of a full render of `book`: one record per
    /// non-draft chapter (a draft never enters the map), the first
    /// non-draft chapter as index, and the smart-punctuation flag. The
    /// build guarantees chapter source paths are unique.
    pub fn full_render(&mut self, book: &BookModel, src_dir: &str, smart_punctuation: bool)
        ensures
            final(self)@.entries == spec_collect_entries(book@, src_dir@),
            final(self)@.smart == smart_punctuation,
            final(self)@.index_path == (match spec_first_chapter(book@) {
                Option::Some(sp) => Option::Some(sp),
                Option::None => old(self)@.index_path,
            }),
    {
        self.smart_punctuation = smart_punctuation;
        self.path2ctxs.clear();
        let ghost items = book@;
        let n = book.sections.len();
        let mut i: usize = 0;
        let mut is_index = true;
        proof {
            assert(items.subrange(0, 0) =~= Seq::<BookItemSpec>::empty());
            assert(items.subrange(0, n as int) =~= items);
            assert(self@.entries =~= Seq::<PathCtxModel>::empty());
        }
        while i < n
            invariant
                i <= n,
                n == book.sections@.len(),
                items == book@,
                self@.entries == spec_collect_entries(items.subrange(0, i as int), src_dir@),
                self@.smart == smart_punctuation,
                spec_first_chapter(items) == if is_index {
                    spec_first_chapter(items.subrange(i as int, n as int))
                } else {
                    match self@.index_path {
                        Option::Some(p) => Option::Some(p),
                        Option::None => Option::None,
                    }
                },
                !is_index ==> (self@.index_path matches Option::Some(_)),
                is_index ==> self@.index_path == old(self)@.index_path,
            decreases n - i,
        {
            proof {
                assert(items.subrange(0, i as int + 1).drop_last() =~= items.subrange(0, i as int));
                assert(items.subrange(0, i as int + 1)[i as int] == items[i as int]);
                assert(items.subrange(i as int, n as int)[0] == items[i as int]);
                assert(items.subrange(i as int, n as int).drop_first() =~= items.subrange(
                    i as int + 1,
                    n as int,
                ));
                assert(items[i as int] == book.sections@[i as int]@);
            }
            match &book.sections[i] {
                BookItemModel::Chapter(c) => {
                    match &c.source_path {
                        Some(sp) => {
                            let abs = path_join(src_dir, sp.as_str());
                            if is_index {
                                self.index_path = Some(sp.clone());
                                is_index = false;
                            }
                            let record = PathCtx {
                                path: abs,
                                ctx: CtxCore {
                                    chapter_name: c.name.clone(),
                                    len_content: c.content.as_str().unicode_len(),
                                },
                            };
                            self.path2ctxs.push(record);
                            proof {
                                assert(self@.entries =~= spec_collect_entries(
                                    items.subrange(0, i as int + 1),
                                    src_dir@,
                                ));
                            }
                        },
                        None => {
                            proof {
                                assert(spec_collect_entries(
                                    items.subrange(0, i as int + 1),
                                    src_dir@,
                                ) =~= spec_collect_entries(items.subrange(0, i as int), src_dir@));
                            }
                        },
                    }
                },
                _ => {
                    proof {
                        assert(spec_collect_entries(items.subrange(0, i as int + 1), src_dir@)
                            =~= spec_collect_entries(items.subrange(0, i as int), src_dir@));
                    }
                },
            }
            i += 1;
        }
    }

    /// Whether no two records share a source path, as the build
    /// guarantees for a well-formed book.
    pub fn has_unique_paths(&self) -> (r: bool)
        ensures
            r == entries_unique(self@.entries),
    {
        let n = self.path2ctxs.len();
        let mut i: usize = 0;
        while i < n
            invariant
                i <= n,
                n == self.path2ctxs@.len(),
                forall|a: int, b: int|
                    0 <= a < b < self@.entries.len() && a < i ==> self@.entries[a].path
                        != self@.entries[b].path,
            decreases n - i,
        {
            let mut j: usize = i + 1;
            while j < n
                invariant
                    i < j <= n,
                    n == self.path2ctxs@.len(),
                    forall|b: int| i < b < j ==> self@.entries[i as int].path != self@.entries[b].path,
                decreases n - j,
            {
                proof {
                    assert(self@.entries[i as int] == self.path2ctxs@[i as int]@);
                    assert(self@.entries[j as int] == self.path2ctxs@[j as int]@);
                }
                if crate::pathstr::str_eq(
                    self.path2ctxs[i].path.as_str(),
                    self.path2ctxs[j].path.as_str(),
                ) {
                    return false;
                }
                j += 1;
            }
            i += 1;
        }
        true
    }

    /// Whether the render state has a record for this absolute source
    /// path.
    pub fn contains_path(&self, path: &str) -> (r: bool)
        ensures
            r == has_ctx(self@, path@),
    {
        let n = self.path2ctxs.len();
        let mut i: usize = 0;
        while i < n
            invariant
                i <= n,
                n == self.path2ctxs@.len(),
                forall|j: int| 0 <= j < i ==> self@.entries[j].path != path@,
            decreases n - i,
        {
            assert(self@.entries[i as int] == self.path2ctxs@[i as int]@);
            if crate::pathstr::str_eq(self.path2ctxs[i].path.as_str(), path) {
                proof {
                    assert(has_ctx(self@, path@)) by {
                        assert((i as int) < self@.entries.len() && self@.entries[i as int].path
                            == path@);
                    }
                }
                return true;
            }
            i += 1;
        }
        false
    }

    /// The context recorded for an absolute source path, if any: the
    /// chapter lookup used when a changed or edited file may be patched.
    pub fn lookup(&self, path: &str) -> (r: Option<&CtxCore>)
        requires
            entries_unique(self@.entries),
        ensures
            match r {
                Some(c) => has_ctx(self@, path@) && {
                    let e = self@.entries[ctx_idx(self@, path@)];
                    c.chapter_name@ == e.chapter_name && c.len_content as int == e.len_content
                },
                None => !has_ctx(self@, path@),
            },
    {
        let n = self.path2ctxs.len();
        let mut i: usize = 0;
        while i < n
            invariant
                i <= n,
                n == self.path2ctxs@.len(),
                entries_unique(self@.entries),
                forall|j: int| 0 <= j < i ==> self@.entries[j].path != path@,
            decreases n - i,
        {
            assert(self@.entries[i as int] == self.path2ctxs@[i as int]@);
            if crate::pathstr::str_eq(self.path2ctxs[i].path.as_str(), path) {
                proof {
                    assert(has_ctx(self@, path@)) by {
                        assert((i as int) < self@.entries.len() && self@.entries[i as int].path
                            == path@);
                    }
                    let k = ctx_idx(self@, path@);
                    assert(0 <= k < self@.entries.len() && self@.entries[k].path == path@);
                    if k < i as int {
                        assert(self@.entries[k].path != self@.entries[i as int].path);
                    } else if (i as int) < k {
                        assert(self@.entries[i as int].path != self@.entries[k].path);
                    }
                }
                return Some(&self.path2ctxs[i].ctx);
            }
            i += 1;
        }
        None
    }
}

/// Draft exclusion: every record of the render state comes from a
/// chapter that has a source path; a draft chapter never enters the
/// path map.
pub proof fn lemma_draft_exclusion(items: Seq<BookItemSpec>, src: Seq<char>)
    ensures
        forall|k: int|
            0 <= k < spec_collect_entries(items, src).len() ==> #[trigger] entry_from_chapter(
                items,
                src,
                spec_collect_entries(items, src)[k],
            ),
    decreases items.len(),
{
    if items.len() == 0 {
    } else {
        lemma_draft_exclusion(items.drop_last(), src);
        assert forall|k: int|
            0 <= k < spec_collect_entries(items, src).len() implies #[trigger] entry_from_chapter(
            items,
            src,
            spec_collect_entries(items, src)[k],
        ) by {
            let d = spec_collect_entries(items, src);
            let rest = spec_collect_entries(items.drop_last(), src);
            if k < rest.len() {
                assert(d[k] == rest[k]);
                assert(entry_from_chapter(items.drop_last(), src, rest[k]));
                let i = choose|i: int|
                    0 <= i < items.drop_last().len() && chapter_yields(
                        items.drop_last()[i],
                        src,
                        rest[k],
                    );
                assert(items[i] == items.drop_last()[i]);
                assert(chapter_yields(items[i], src, d[k]));
            } else {
                let last = items.len() - 1;
                assert(chapter_yields(items[last], src, d[k]));
            }
        }
    }
}

/// Whether some chapter of the book yields this render-state record.
pub open spec fn entry_from_chapter(
    items: Seq<BookItemSpec>,
    src: Seq<char>,
    e: PathCtxModel,
) -> bool {
    exists|i: int| 0 <= i < items.len() && chapter_yields(items[i], src, e)
}

/// Whether this book item is a non-draft chapter yielding the record.
pub open spec fn chapter_yields(item: BookItemSpec, src: Seq<char>, e: PathCtxModel) -> bool {
    match item {
        BookItemSpec::Chapter(c) => match c.source_path {
            Option::Some(sp) => e.path == path_join_spec(src, sp) && e.chapter_name == c.name
                && e.len_content == c.content.len(),
            Option::None => false,
        },
        _ => false,
    }
}

/// The byte-order mark, as the character it decodes to.
pub open spec fn bom_char() -> char {
    '\u{feff}'
}

/// `s` with one leading byte-order mark removed.
pub open spec fn strip_bom_spec(s: Seq<char>) -> Seq<char> {
    if s.len() > 0 && s[0] == bom_char() {
        s.subrange(1, s.len() as int)
    } else {
        s
    }
}

/// Strips a leading byte-order mark from freshly loaded chapter content.
pub fn strip_bom(content: String) -> (r: String)
    ensures
        r@ == strip_bom_spec(content@),
{
    let s = content.as_str();
    let n = s.unicode_len();
    if n > 0 && s.get_char(0) == '\u{feff}' {
        s.substring_char(1, n).to_owned()
    } else {
        content
    }
}

/// Chapter content renders the same whether or not the file began with a
/// byte-order mark: after loading, the stripped contents are equal.
pub proof fn lemma_bom_transparent(c: Seq<char>, smart: bool)
    requires
        c.len() == 0 || c[0] != bom_char(),
    ensures
        strip_bom_spec(seq![bom_char()] + c) == strip_bom_spec(c),
        crate::patch_registry::rendered_markdown_of(strip_bom_spec(seq![bom_char()] + c), smart)
            == crate::patch_registry::rendered_markdown_of(strip_bom_spec(c), smart),
{
    let b = seq![bom_char()] + c;
    assert(b[0] == bom_char());
    assert(b.subrange(1, b.len() as int) =~= c);
    assert(strip_bom_spec(b) == c);
    assert(strip_bom_spec(c) == c);
}

/// The work a per-chapter patch hands to the preprocessors: the
/// chapter's path relative to the source directory, the HTML path its
/// patch publishes under, and the synthetic one-chapter book's chapter.
#[derive(Clone, Debug)]
pub struct PatchJob {
    pub relative_path: String,
    pub html_path: String,
    pub chapter: ChapterModel,
}

/// Resolves a chapter patch below the source directory. A path outside
/// the source directory is rejected, exactly then, with `InvalidPath`.
pub fn prepare_patch(path: &str, src_dir: &str, chapter_name: &str, content: String) -> (r: Result<
    PatchJob,
    PreviewError,
>)
    ensures
        match r {
            Ok(job) => is_path_prefix(src_dir@, path@) && {
                let rest = path_rest(path@, src_dir@);
                job.relative_path@ == rest && job.html_path@ == with_html_ext_spec(rest)
                    && job.chapter@.name == chapter_name@ && job.chapter@.content == content@
                    && job.chapter@.source_path == Option::Some(rest)
            },
            Err(e) => e == PreviewError::InvalidPath && !is_path_prefix(src_dir@, path@),
        },
{
    match path_strip_prefix(path, src_dir) {
        Some(relative_path) => {
            let html_path = path_with_html_ext(relative_path.as_str());
            let chapter = ChapterModel {
                name: chapter_name.to_owned(),
                content,
                source_path: Some(relative_path.clone()),
            };
            Ok(PatchJob { relative_path, html_path, chapter })
        },
        None => Err(PreviewError::InvalidPath),
    }
}

/// The shape a preprocessed one-chapter book must have: exactly one
/// item, a chapter whose source path is the patched relative path.
pub open spec fn patch_shape_ok(items: Seq<BookItemSpec>, rel: Seq<char>) -> bool {
    items.len() == 1 && (items[0] matches BookItemSpec::Chapter(c) && c.source_path
        == Option::Some(rel))
}

/// Extracts the preprocessed Markdown of a patched chapter. A
/// preprocessor output of any other shape is rejected, exactly then,
/// with `PreprocessorShape`.
pub fn extract_patched_markdown(preprocessed: BookModel, relative_path: &str) -> (r: Result<
    String,
    PreviewError,
>)
    ensures
        match r {
            Ok(md) => patch_shape_ok(preprocessed@, relative_path@) && (preprocessed@[0]
                matches BookItemSpec::Chapter(c) && md@ == c.content),
            Err(e) => e == PreviewError::PreprocessorShape && !patch_shape_ok(
                preprocessed@,
                relative_path@,
            ),
        },
{
    let mut preprocessed = preprocessed;
    if preprocessed.sections.len() != 1 {
        return Err(PreviewError::PreprocessorShape);
    }
    assert(preprocessed@[0] == preprocessed.sections@[0]@);
    match preprocessed.sections.pop() {
        Some(BookItemModel::Chapter(c)) => {
            match c.source_path {
                Some(sp) => {
                    if crate::pathstr::str_eq(sp.as_str(), relative_path) {
                        Ok(c.content)
                    } else {
                        Err(PreviewError::PreprocessorShape)
                    }
                },
                None => Err(PreviewError::PreprocessorShape),
            }
        },
        _ => Err(PreviewError::PreprocessorShape),
    }
}

} // verus!
