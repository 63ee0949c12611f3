//! The rebuilder state machine.
//!
//! It consumes change batches, editor buffers and rebuild completions,
//! and decides between reloading the gitignore, a full rebuild (with or
//! without an environment reload), and per-chapter patches. On a
//! finished rebuild it compares old and new environment and says whether
//! the watcher must be reconfigured and what the web server must learn.

use crate::git_ignore::GitignoreBinding;
use crate::pathstr::{
    is_path_prefix, path_join, path_join_spec, path_rest, path_starts_with, path_strip_prefix,
    path_with_html_ext, str_eq, with_html_ext_spec,
};
use crate::rendering::{ctx_idx, has_ctx, BookModel, HbsModel, HtmlHbsState};
use crate::watch_files::{paths_view, seq_has, vecs_str_eq};
use vstd::prelude::*;

verus! {

/// The pieces of the HTML configuration the preview core reads.
#[derive(Clone, Debug)]
pub struct HtmlConfigModel {
    /// The theme directory configured for the book, if any, relative to
    /// the book root.
    pub theme: Option<String>,
    pub smart_punctuation: bool,
    pub additional_css: Vec<String>,
    pub additional_js: Vec<String>,
    /// The source file configured for the 404 page, if any.
    pub input_404: Option<String>,
}

/// Mathematical model of the HTML configuration.
pub ghost struct HtmlConfigSpec {
    pub theme: Option<Seq<char>>,
    pub smart: bool,
    pub additional_css: Seq<Seq<char>>,
    pub additional_js: Seq<Seq<char>>,
    pub input_404: Option<Seq<char>>,
}

impl View for HtmlConfigModel {
    type V = HtmlConfigSpec;

    open spec fn view(&self) -> HtmlConfigSpec {
        HtmlConfigSpec {
            theme: match self.theme {
                Option::Some(t) => Option::Some(t@),
                Option::None => Option::None,
            },
            smart: self.smart_punctuation,
            additional_css: paths_view(self.additional_css@),
            additional_js: paths_view(self.additional_js@),
            input_404: match self.input_404 {
                Option::Some(p) => Option::Some(p@),
                Option::None => Option::None,
            },
        }
    }
}

/// What the web server needs whenever any of it changes.
#[derive(Clone, Debug)]
pub struct ServeInfo {
    pub src_dir: String,
    pub theme_dir: String,
    pub additional_css: Vec<String>,
    pub additional_js: Vec<String>,
    pub file_404: String,
}

/// Mathematical model of the server snapshot.
pub ghost struct ServeInfoModel {
    pub src_dir: Seq<char>,
    pub theme_dir: Seq<char>,
    pub additional_css: Seq<Seq<char>>,
    pub additional_js: Seq<Seq<char>>,
    pub file_404: Seq<char>,
}

impl View for ServeInfo {
    type V = ServeInfoModel;

    open spec fn view(&self) -> ServeInfoModel {
        ServeInfoModel {
            src_dir: self.src_dir@,
            theme_dir: self.theme_dir@,
            additional_css: paths_view(self.additional_css@),
            additional_js: paths_view(self.additional_js@),
            file_404: self.file_404@,
        }
    }
}

/// Everything a finished full rebuild hands back.
#[derive(Clone, Debug)]
pub struct BookData {
    pub book: BookModel,
    /// Whether watcher and server settings should be reconsidered.
    pub reload: bool,
    /// The absolute source directory of the freshly loaded book.
    pub src_dir: String,
    /// The extra watch directories of the freshly loaded configuration.
    pub extra_watch_dirs: Vec<String>,
    pub html_config: HtmlConfigModel,
    pub theme_dir: String,
    pub hbs_state: HtmlHbsState,
}

/// Messages the rebuilder consumes.
#[derive(Clone, Debug)]
pub enum RebuildInfo {
    /// Instruction to rebuild, and if a full reload should be considered.
    Rebuild(bool),
    /// Newly built book and state.
    NewBook(Box<BookData>),
    /// Paths changed.
    ChangedPaths(Vec<String>),
    /// Content of a modified path.
    ModifiedContent { path: String, content: String },
    /// Open the browser for the chapter of the given absolute path.
    OpenBrowser(String),
}

/// The mutable parts of the rebuilder.
pub struct RebuilderMut {
    pub open_browser_at: Option<String>,
    pub maybe_gitignore: Option<GitignoreBinding>,
    pub summary_md: String,
    pub theme_dir: String,
    pub extra_watch_dirs: Vec<String>,
    pub html_config: HtmlConfigModel,
    pub hbs_state: HtmlHbsState,
}

/// The rebuilder: fixed bindings plus its mutable state.
pub struct Rebuilder {
    pub book_root: String,
    pub build_dir: String,
    pub socket_address: String,
    pub book_toml: String,
    pub src_dir: String,
    pub mutables: RebuilderMut,
}

/// Mathematical model of the rebuilder.
pub ghost struct RebuilderModel {
    pub book_root: Seq<char>,
    pub build_dir: Seq<char>,
    pub socket_address: Seq<char>,
    pub book_toml: Seq<char>,
    pub src_dir: Seq<char>,
    pub open_browser_at: Option<Seq<char>>,
    pub gitignore_path: Option<Seq<char>>,
    pub summary_md: Seq<char>,
    pub theme_dir: Seq<char>,
    pub extra_watch_dirs: Seq<Seq<char>>,
    pub html_config: HtmlConfigSpec,
    pub hbs: HbsModel,
}

impl View for Rebuilder {
    type V = RebuilderModel;

    open spec fn view(&self) -> RebuilderModel {
        RebuilderModel {
            book_root: self.book_root@,
            build_dir: self.build_dir@,
            socket_address: self.socket_address@,
            book_toml: self.book_toml@,
            src_dir: self.src_dir@,
            open_browser_at: match self.mutables.open_browser_at {
                Option::Some(p) => Option::Some(p@),
                Option::None => Option::None,
            },
            gitignore_path: match self.mutables.maybe_gitignore {
                Option::Some(b) => Option::Some(b.gitignore_path@),
                Option::None => Option::None,
            },
            summary_md: self.mutables.summary_md@,
            theme_dir: self.mutables.theme_dir@,
            extra_watch_dirs: paths_view(self.mutables.extra_watch_dirs@),
            html_config: self.mutables.html_config@,
            hbs: self.mutables.hbs_state@,
        }
    }
}

/// What a batch of changed paths causes.
#[derive(Clone, Debug)]
pub enum BatchDecision {
    /// The ignore file itself changed: reload it; the batch has no
    /// surviving paths.
    ReloadIgnore,
    /// A full rebuild, and whether to also reconsider the environment.
    FullRebuild(bool),
    /// Patch exactly these chapters, each a known chapter source path.
    Patch(Vec<String>),
}

/// A per-chapter patch task for an editor-supplied buffer.
#[derive(Clone, Debug)]
pub struct PatchTask {
    pub path: String,
    pub chapter_name: String,
    pub content: String,
}

/// The paths of a batch that the current render state knows as chapter
/// sources, in batch order.
pub open spec fn spec_known_paths(paths: Seq<Seq<char>>, m: HbsModel) -> Seq<Seq<char>>
    decreases paths.len(),
{
    if paths.len() == 0 {
        Seq::empty()
    } else {
        let rest = spec_known_paths(paths.drop_last(), m);
        if has_ctx(m, paths[paths.len() - 1]) {
            rest.push(paths[paths.len() - 1])
        } else {
            rest
        }
    }
}

/// Whether some path of the batch lies under the theme directory.
pub open spec fn spec_any_under(paths: Seq<Seq<char>>, dir: Seq<char>) -> bool {
    exists|i: int| 0 <= i < paths.len() && is_path_prefix(dir, paths[i])
}

/// The relative HTML path of the 404 page: the configured source file,
/// or `404.html`, with its extension replaced by `.html`.
pub open spec fn spec_404_rel(input_404: Option<Seq<char>>) -> Seq<char> {
    match input_404 {
        Option::Some(p) => with_html_ext_spec(p),
        Option::None => with_html_ext_spec(
            seq!['4', '0', '4', '.', 'h', 't', 'm', 'l'],
        ),
    }
}

/// Watcher and server consequences of a finished rebuild.
#[derive(Clone, Debug)]
pub struct ReloadPlan {
    /// Whether the file watcher must be rebuilt: some watched directory
    /// input changed.
    pub reload_watcher: bool,
    /// A fresh snapshot for the web server when some server input
    /// changed.
    pub serve_info: Option<ServeInfo>,
}

/// Whether a directory input of the watcher changed.
pub open spec fn spec_watcher_changed(m: RebuilderModel, d: &BookData) -> bool {
    ||| d.src_dir@ != m.src_dir
    ||| d.theme_dir@ != m.theme_dir
    ||| paths_view(d.extra_watch_dirs@) != m.extra_watch_dirs
}

/// Whether a server input changed.
pub open spec fn spec_server_changed(m: RebuilderModel, d: &BookData) -> bool {
    ||| d.src_dir@ != m.src_dir
    ||| d.html_config@.additional_js != m.html_config.additional_js
    ||| d.html_config@.additional_css != m.html_config.additional_css
    ||| d.html_config@.input_404 != m.html_config.input_404
}

impl Rebuilder {
    /// A fresh rebuilder for the given book root: the configuration file
    /// sits beside the root, and nothing is known of the book yet.
    pub fn new(
        book_root: String,
        build_dir: String,
        socket_address: String,
        open_browser_at: Option<String>,
    ) -> (r: Self)
        ensures
            r@.book_root == book_root@,
            r@.build_dir == build_dir@,
            r@.socket_address == socket_address@,
            r@.book_toml == path_join_spec(
                book_root@,
                seq!['b', 'o', 'o', 'k', '.', 't', 'o', 'm', 'l'],
            ),
            r@.src_dir.len() == 0,
            r@.summary_md.len() == 0,
            r@.theme_dir.len() == 0,
            r@.open_browser_at == (match open_browser_at {
                Option::Some(p) => Option::Some(p@),
                Option::None => Option::<Seq<char>>::None,
            }),
            r@.gitignore_path is None,
            r@.hbs.entries =~= Seq::<crate::rendering::PathCtxModel>::empty(),
    {
        let book_toml = path_join(book_root.as_str(), "book.toml");
        proof {
            reveal_strlit("book.toml");
            assert("book.toml"@ =~= seq!['b', 'o', 'o', 'k', '.', 't', 'o', 'm', 'l']);
        }
        let r = Rebuilder {
            book_root,
            build_dir,
            socket_address,
            book_toml,
            src_dir: String::new(),
            mutables: RebuilderMut {
                open_browser_at,
                maybe_gitignore: None,
                summary_md: String::new(),
                theme_dir: String::new(),
                extra_watch_dirs: Vec::new(),
                html_config: HtmlConfigModel {
                    theme: None,
                    smart_punctuation: false,
                    additional_css: Vec::new(),
                    additional_js: Vec::new(),
                    input_404: None,
                },
                hbs_state: HtmlHbsState::new(),
            },
        };
        proof {
            assert(r@.hbs.entries =~= Seq::<crate::rendering::PathCtxModel>::empty());
        }
        r
    }

    /// Classifies one batch of changed paths, by the decision rule: the
    /// ignore file first, then the book configuration, then the summary
    /// and the theme, and otherwise per-chapter patches for the paths
    /// the render state knows.
    pub fn classify_changed_paths(&self, paths: &Vec<String>) -> (r: BatchDecision)
        ensures
            ({
                let pv = paths_view(paths@);
                let cond_ignore = match self@.gitignore_path {
                    Option::Some(gp) => seq_has(pv, gp),
                    Option::None => false,
                };
                let cond_toml = seq_has(pv, self@.book_toml);
                let cond_full = seq_has(pv, self@.summary_md) || spec_any_under(
                    pv,
                    self@.theme_dir,
                );
                match r {
                    BatchDecision::ReloadIgnore => cond_ignore,
                    BatchDecision::FullRebuild(reload) => !cond_ignore && if reload {
                        cond_toml
                    } else {
                        !cond_toml && cond_full
                    },
                    BatchDecision::Patch(ps) => !cond_ignore && !cond_toml && !cond_full
                        && paths_view(ps@) == spec_known_paths(pv, self@.hbs),
                }
            }),
    {
        let ghost pv = paths_view(paths@);
        match &self.mutables.maybe_gitignore {
            Some(binding) => {
                if Self::contains_path(paths, binding.gitignore_path.as_str()) {
                    return BatchDecision::ReloadIgnore;
                }
            },
            None => {},
        }
        if Self::contains_path(paths, self.book_toml.as_str()) {
            return BatchDecision::FullRebuild(true);
        }
        if Self::contains_path(paths, self.mutables.summary_md.as_str()) {
            return BatchDecision::FullRebuild(false);
        }
        if Self::any_under(paths, self.mutables.theme_dir.as_str()) {
            return BatchDecision::FullRebuild(false);
        }
        let n = paths.len();
        let mut known: Vec<String> = Vec::new();
        let mut i: usize = 0;
        proof {
            assert(pv.subrange(0, 0) =~= Seq::<Seq<char>>::empty());
            assert(paths_view(known@) =~= Seq::<Seq<char>>::empty());
            assert(pv.subrange(0, n as int) =~= pv);
        }
        while i < n
            invariant
                i <= n,
                n == paths@.len(),
                pv == paths_view(paths@),
                paths_view(known@) == spec_known_paths(pv.subrange(0, i as int), self@.hbs),
            decreases n - i,
        {
            proof {
                assert(pv.subrange(0, i as int + 1).drop_last() =~= pv.subrange(0, i as int));
                assert(pv.subrange(0, i as int + 1)[i as int] == pv[i as int]);
                assert(pv[i as int] == paths@[i as int]@);
            }
            if self.mutables.hbs_state.contains_path(paths[i].as_str()) {
                known.push(paths[i].clone());
            }
            proof {
                assert(paths_view(known@) =~= spec_known_paths(
                    pv.subrange(0, i as int + 1),
                    self@.hbs,
                ));
            }
            i += 1;
        }
        BatchDecision::Patch(known)
    }

    /// Whether the batch holds this very path.
    fn contains_path(paths: &Vec<String>, p: &str) -> (r: bool)
        ensures
            r == seq_has(paths_view(paths@), p@),
    {
        let n = paths.len();
        let mut i: usize = 0;
        while i < n
            invariant
                i <= n,
                n == paths@.len(),
                forall|j: int| 0 <= j < i ==> paths@[j]@ != p@,
            decreases n - i,
        {
            if str_eq(paths[i].as_str(), p) {
                proof {
                    assert(paths_view(paths@)[i as int] == paths@[i as int]@);
                }
                return true;
            }
            i += 1;
        }
        proof {
            if seq_has(paths_view(paths@), p@) {
                let k = choose|k: int|
                    0 <= k < paths_view(paths@).len() && paths_view(paths@)[k] == p@;
                assert(paths@[k]@ == p@);
            }
        }
        false
    }

    /// Whether some path of the batch lies under `dir`.
    fn any_under(paths: &Vec<String>, dir: &str) -> (r: bool)
        ensures
            r == spec_any_under(paths_view(paths@), dir@),
    {
        let n = paths.len();
        let mut i: usize = 0;
        while i < n
            invariant
                i <= n,
                n == paths@.len(),
                forall|j: int| 0 <= j < i ==> !is_path_prefix(dir@, paths@[j]@),
            decreases n - i,
        {
            if path_starts_with(paths[i].as_str(), dir) {
                proof {
                    assert(paths_view(paths@)[i as int] == paths@[i as int]@);
                }
                return true;
            }
            i += 1;
        }
        proof {
            if spec_any_under(paths_view(paths@), dir@) {
                let k = choose|k: int|
                    0 <= k < paths_view(paths@).len() && is_path_prefix(
                        dir@,
                        paths_view(paths@)[k],
                    );
                assert(paths@[k]@ == paths_view(paths@)[k]);
            }
        }
        false
    }

    /// Replaces the stored gitignore binding after a reload.
    pub fn set_gitignore(&mut self, binding: Option<GitignoreBinding>)
        ensures
            final(self)@ == (RebuilderModel {
                gitignore_path: match binding {
                    Option::Some(b) => Option::Some(b.gitignore_path@),
                    Option::None => Option::None,
                },
                ..old(self)@
            }),
    {
        self.mutables.maybe_gitignore = binding;
    }

    /// An editor buffer patches a chapter only if its path is a tracked
    /// chapter source; an untracked path is dropped.
    pub fn on_modified_content(&self, path: &str, content: String) -> (r: Option<PatchTask>)
        requires
            crate::rendering::entries_unique(self@.hbs.entries),
        ensures
            match r {
                Some(t) => has_ctx(self@.hbs, path@) && t.path@ == path@ && t.content@ == content@
                    && t.chapter_name@ == self@.hbs.entries[ctx_idx(self@.hbs, path@)].chapter_name,
                None => !has_ctx(self@.hbs, path@),
            },
    {
        match self.mutables.hbs_state.lookup(path) {
            Some(ctx) => {
                let chapter_name = ctx.chapter_name.clone();
                Some(PatchTask { path: path.to_owned(), chapter_name, content })
            },
            None => None,
        }
    }

    /// Compares the freshly built environment with the current one:
    /// the watcher is rebuilt exactly when a directory input changed,
    /// and the server learns a new snapshot exactly when a server input
    /// changed.
    pub fn reload_plan(&self, data: &BookData) -> (r: ReloadPlan)
        ensures
            r.reload_watcher == spec_watcher_changed(self@, data),
            match r.serve_info {
                Some(si) => spec_server_changed(self@, data) && si@.src_dir == data.src_dir@
                    && si@.theme_dir == data.theme_dir@ && si@.additional_js
                    == data.html_config@.additional_js && si@.additional_css
                    == data.html_config@.additional_css && si@.file_404 == path_join_spec(
                    self@.build_dir,
                    spec_404_rel(data.html_config@.input_404),
                ),
                None => !spec_server_changed(self@, data),
            },
    {
        let src_changed = !str_eq(data.src_dir.as_str(), self.src_dir.as_str());
        let theme_changed = !str_eq(data.theme_dir.as_str(), self.mutables.theme_dir.as_str());
        let extra_changed = !vecs_str_eq(&data.extra_watch_dirs, &self.mutables.extra_watch_dirs);
        let js_changed = !vecs_str_eq(
            &data.html_config.additional_js,
            &self.mutables.html_config.additional_js,
        );
        let css_changed = !vecs_str_eq(
            &data.html_config.additional_css,
            &self.mutables.html_config.additional_css,
        );
        let f404_changed = match (&data.html_config.input_404, &self.mutables.html_config.input_404) {
            (Some(a), Some(b)) => !str_eq(a.as_str(), b.as_str()),
            (None, None) => false,
            _ => true,
        };
        let reload_watcher = src_changed || theme_changed || extra_changed;
        let serve_info = if src_changed || js_changed || css_changed || f404_changed {
            let rel_404 = match &data.html_config.input_404 {
                Some(p) => path_with_html_ext(p.as_str()),
                None => {
                    let r = path_with_html_ext("404.html");
                    proof {
                        reveal_strlit("404.html");
                        assert("404.html"@ =~= seq!['4', '0', '4', '.', 'h', 't', 'm', 'l']);
                    }
                    r
                },
            };
            let file_404 = path_join(self.build_dir.as_str(), rel_404.as_str());
            Some(
                ServeInfo {
                    src_dir: data.src_dir.clone(),
                    theme_dir: data.theme_dir.clone(),
                    additional_css: data.html_config.additional_css.clone(),
                    additional_js: data.html_config.additional_js.clone(),
                    file_404,
                },
            )
        } else {
            None
        };
        ReloadPlan { reload_watcher, serve_info }
    }

    /// Installs the freshly built book state. The summary path and the
    /// source directory follow only when the environment was reloaded
    /// and the source directory moved.
    pub fn apply_new_book(&mut self, data: BookData)
        ensures
            final(self)@.theme_dir == data.theme_dir@,
            final(self)@.html_config == data.html_config@,
            final(self)@.hbs == data.hbs_state@,
            final(self)@.extra_watch_dirs == paths_view(data.extra_watch_dirs@),
            final(self)@.book_root == old(self)@.book_root,
            final(self)@.build_dir == old(self)@.build_dir,
            final(self)@.socket_address == old(self)@.socket_address,
            final(self)@.book_toml == old(self)@.book_toml,
            final(self)@.open_browser_at == old(self)@.open_browser_at,
            final(self)@.gitignore_path == old(self)@.gitignore_path,
            if data.reload && data.src_dir@ != old(self)@.src_dir {
                final(self)@.src_dir == data.src_dir@ && final(self)@.summary_md == path_join_spec(
                    data.src_dir@,
                    seq!['S', 'U', 'M', 'M', 'A', 'R', 'Y', '.', 'm', 'd'],
                )
            } else {
                final(self)@.src_dir == old(self)@.src_dir && final(self)@.summary_md == old(
                    self,
                )@.summary_md
            },
    {
        if data.reload && !str_eq(data.src_dir.as_str(), self.src_dir.as_str()) {
            let summary = path_join(data.src_dir.as_str(), "SUMMARY.md");
            proof {
                reveal_strlit("SUMMARY.md");
                assert("SUMMARY.md"@ =~= seq!['S', 'U', 'M', 'M', 'A', 'R', 'Y', '.', 'm', 'd']);
            }
            self.mutables.summary_md = summary;
            self.src_dir = data.src_dir;
        }
        self.mutables.theme_dir = data.theme_dir;
        self.mutables.html_config = data.html_config;
        self.mutables.hbs_state = data.hbs_state;
        self.mutables.extra_watch_dirs = data.extra_watch_dirs;
    }

    /// Once at least one rebuild has landed, a pending open-browser
    /// request becomes the URL of the chapter's page and is consumed.
    pub fn maybe_open_browser(&mut self) -> (r: Option<String>)
        ensures
            final(self)@ == (RebuilderModel {
                open_browser_at: final(self)@.open_browser_at,
                ..old(self)@
            }),
            match r {
                Some(url) => old(self)@.summary_md.len() > 0 && (match old(
                    self,
                )@.open_browser_at {
                    Option::Some(p) => url@ == spec_browser_url(old(self)@, p),
                    Option::None => false,
                }) && (final(self)@.open_browser_at is None),
                None => (old(self)@.summary_md.len() == 0 || old(self)@.open_browser_at is None)
                    && final(self)@.open_browser_at == old(self)@.open_browser_at,
            },
    {
        if self.mutables.summary_md.as_str().unicode_len() == 0 {
            return None;
        }
        match self.mutables.open_browser_at.take() {
            Some(p) => {
                let rel = match path_strip_prefix(p.as_str(), self.src_dir.as_str()) {
                    Some(rest) => rest,
                    None => p,
                };
                let page = path_with_html_ext(rel.as_str());
                let mut url = "http://".to_owned();
                proof {
                    reveal_strlit("http://");
                    assert("http://"@ =~= http_scheme());
                }
                url.append(self.socket_address.as_str());
                url.append("/");
                proof {
                    reveal_strlit("/");
                }
                url.append(page.as_str());
                proof {
                    assert(url@ =~= spec_browser_url(old(self)@, p@));
                }
                Some(url)
            },
            None => None,
        }
    }
}

/// The characters of the HTTP scheme prefix of a preview URL.
pub open spec fn http_scheme() -> Seq<char> {
    seq!['h', 't', 't', 'p', ':', '/', '/']
}

/// The URL the browser is opened at for the chapter at absolute path
/// `p`: the path is taken relative to the source directory when it lies
/// inside it, given the HTML extension, and served at the socket
/// address.
pub open spec fn spec_browser_url(m: RebuilderModel, p: Seq<char>) -> Seq<char> {
    let rel = if is_path_prefix(m.src_dir, p) {
        path_rest(p, m.src_dir)
    } else {
        p
    };
    http_scheme() + m.socket_address + seq!['/'] + with_html_ext_spec(rel)
}

} // verus!
