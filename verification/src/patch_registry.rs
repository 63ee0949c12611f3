//! The per-chapter publish/subscribe cache bridging rebuilds to open
//! browser tabs.
//!
//! Each entry keys the latest preprocessed Markdown of one relative HTML
//! path together with the currently published HTML body fragment. A full
//! rebuild pushes the reload sentinel into every live entry and forgets
//! them; a patch renders and publishes only when the Markdown actually
//! changed.

use crate::pathstr::{html_ext, path_with_html_ext, str_eq, with_html_ext_spec};
use vstd::prelude::*;

verus! {

/// The configuration a patch-time render needs.
#[derive(Clone, Copy, Debug, PartialEq, Eq, Structural)]
pub struct ProcessCfg {
    /// Whether smart punctuation is enabled for Markdown rendering.
    pub smart_punctuation: bool,
}

/// One registry entry: the relative HTML path, the last preprocessed
/// Markdown stored for it, and the currently published HTML body.
#[derive(Clone, Debug)]
pub struct PatchEntry {
    pub path: String,
    pub markdown: String,
    pub html: String,
}

/// Mathematical model of one entry.
pub ghost struct EntryModel {
    pub path: Seq<char>,
    pub markdown: Seq<char>,
    pub html: Seq<char>,
}

impl View for PatchEntry {
    type V = EntryModel;

    open spec fn view(&self) -> EntryModel {
        EntryModel { path: self.path@, markdown: self.markdown@, html: self.html@ }
    }
}

/// Mathematical model of the whole registry.
pub ghost struct RegistryModel {
    pub patches: Seq<EntryModel>,
    pub index_path: Option<Seq<char>>,
    pub smart: bool,
}

/// A registry of patches for relative HTML paths.
#[derive(Clone, Debug)]
pub struct PatchRegistry {
    /// Preprocessed Markdown content and published HTML body of each
    /// patched path.
    pub patches: Vec<PatchEntry>,
    /// Relative HTML path of the index chapter.
    pub index_path: Option<String>,
    pub process_cfg: ProcessCfg,
}

impl View for PatchRegistry {
    type V = RegistryModel;

    open spec fn view(&self) -> RegistryModel {
        RegistryModel {
            patches: self.patches@.map(|i: int, e: PatchEntry| e@),
            index_path: match self.index_path {
                Option::Some(s) => Option::Some(s@),
                Option::None => Option::None,
            },
            smart: self.process_cfg.smart_punctuation,
        }
    }
}

/// The body value instructing the browser to reload the whole page.
pub open spec fn reload_sentinel() -> Seq<char> {
    seq!['_', '_', 'R', 'E', 'L', 'O', 'A', 'D']
}

/// What the Markdown renderer returns for the given text and
/// smart-punctuation flag.
pub uninterp spec fn rendered_markdown_of(md: Seq<char>, smart: bool) -> Seq<char>;

/// Relies on `mdbook::utils::render_markdown`: the returned HTML body
/// fragment is a function of the Markdown text and the smart-punctuation
/// flag alone. The playground and code transforms mdbook applies to
/// whole rendered pages are not exposed for fragments, so a patch
/// publishes the rendered fragment itself; a full rebuild restores the
/// fully transformed page.
#[verifier::external_body]
fn render_markdown(md: &str, smart_punctuation: bool) -> (r: String)
    ensures
        r@ == rendered_markdown_of(md@, smart_punctuation),
{
    mdbook::utils::render_markdown(md, smart_punctuation)
}

/// A request to modify the patch registry.
#[derive(Clone, Debug)]
pub enum PatchRegistryRequest {
    /// Register a new patch with the preprocessed Markdown content.
    NewPatch(String, String),
    /// The book is rebuilt, with an optional new index path
    /// (relative source path of the index chapter).
    Rebuild { index_path: Option<String>, process_cfg: ProcessCfg },
    /// Clear the registry, like a soft shutdown.
    Clear,
}

/// A query for the patch registry.
#[derive(Clone, Debug)]
pub enum PatchRegistryQuery {
    /// Watch a path for changes.
    Watch(String),
    /// Get if a path has patches.
    GetHasPatch(String),
}

/// A response from the patch registry.
#[derive(Clone, Debug)]
pub enum PatchRegistryResponse {
    /// Snapshot subscription for watching a path.
    WatchReceiver(WatchSubscription),
    /// If a path has patches.
    HasPatch(bool),
}

/// What a fresh subscriber sees on attach: the resolved path of the entry
/// it is bound to, and the entry's currently published body.
#[derive(Clone, Debug)]
pub struct WatchSubscription {
    pub path: String,
    pub current: String,
}

/// A publish the surrounding process must deliver to the subscribers of
/// `path`.
#[derive(Clone, Debug)]
pub struct PatchNotification {
    pub path: String,
    pub html: String,
}

/// At most one entry per relative HTML path, and a set index path is
/// never the empty path.
pub open spec fn registry_wf(m: RegistryModel) -> bool {
    &&& forall|i: int, j: int|
        0 <= i < j < m.patches.len() ==> m.patches[i].path != m.patches[j].path
    &&& match m.index_path {
        Option::Some(ip) => ip.len() > 0,
        Option::None => true,
    }
}

/// Whether the registry holds an entry for `p`.
pub open spec fn has_entry(m: RegistryModel, p: Seq<char>) -> bool {
    exists|i: int| 0 <= i < m.patches.len() && m.patches[i].path == p
}

/// The index of the entry for `p`; meaningful only when `has_entry`.
pub open spec fn entry_idx(m: RegistryModel, p: Seq<char>) -> int {
    choose|i: int| 0 <= i < m.patches.len() && m.patches[i].path == p
}

/// The Markdown last stored for `p`; an absent entry stores the empty
/// string.
pub open spec fn spec_stored_markdown(m: RegistryModel, p: Seq<char>) -> Seq<char> {
    if has_entry(m, p) {
        m.patches[entry_idx(m, p)].markdown
    } else {
        Seq::empty()
    }
}

/// An empty path resolves to the stored index path, so that a browser at
/// the site root can subscribe.
pub open spec fn spec_resolve(m: RegistryModel, p: Seq<char>) -> Seq<char> {
    match m.index_path {
        Option::Some(ip) => if p.len() == 0 {
            ip
        } else {
            p
        },
        Option::None => p,
    }
}

/// Whether `NewPatch(p, md)` publishes: only when the incoming Markdown
/// differs from what the entry last stored.
pub open spec fn spec_new_patch_publishes(m: RegistryModel, p: Seq<char>, md: Seq<char>) -> bool {
    md != spec_stored_markdown(m, p)
}

/// The registry after `NewPatch(p, md)`.
pub open spec fn spec_new_patch(m: RegistryModel, p: Seq<char>, md: Seq<char>) -> RegistryModel {
    if has_entry(m, p) {
        if spec_new_patch_publishes(m, p, md) {
            RegistryModel {
                patches: m.patches.update(
                    entry_idx(m, p),
                    EntryModel { path: p, markdown: md, html: rendered_markdown_of(md, m.smart) },
                ),
                ..m
            }
        } else {
            m
        }
    } else {
        if spec_new_patch_publishes(m, p, md) {
            RegistryModel {
                patches: m.patches.push(
                    EntryModel { path: p, markdown: md, html: rendered_markdown_of(md, m.smart) },
                ),
                ..m
            }
        } else {
            RegistryModel {
                patches: m.patches.push(
                    EntryModel { path: p, markdown: md, html: Seq::empty() },
                ),
                ..m
            }
        }
    }
}

/// The registry after `Watch(p)`: the entry the subscriber binds to is
/// created empty when absent.
pub open spec fn spec_watch_model(m: RegistryModel, p: Seq<char>) -> RegistryModel {
    let rp = spec_resolve(m, p);
    if has_entry(m, rp) {
        m
    } else {
        RegistryModel {
            patches: m.patches.push(
                EntryModel { path: rp, markdown: Seq::empty(), html: Seq::empty() },
            ),
            ..m
        }
    }
}

/// The body a subscriber attached by `Watch(p)` sees initially.
pub open spec fn spec_watch_current(m: RegistryModel, p: Seq<char>) -> Seq<char> {
    let rp = spec_resolve(m, p);
    if has_entry(m, rp) {
        m.patches[entry_idx(m, rp)].html
    } else {
        Seq::empty()
    }
}

/// The registry after `Rebuild`: all entries forgotten, the render
/// configuration replaced, and the index path replaced when one is given.
pub open spec fn spec_rebuild(
    m: RegistryModel,
    index_path: Option<Seq<char>>,
    cfg: ProcessCfg,
) -> RegistryModel {
    RegistryModel {
        patches: Seq::empty(),
        index_path: match index_path {
            Option::Some(ip) => Option::Some(with_html_ext_spec(ip)),
            Option::None => m.index_path,
        },
        smart: cfg.smart_punctuation,
    }
}

impl PatchRegistry {
    /// A fresh registry with no entries, no index path, and plain
    /// rendering.
    pub fn new() -> (r: Self)
        ensures
            r@.patches =~= Seq::<EntryModel>::empty(),
            r@.index_path is None,
            r@.smart == false,
            registry_wf(r@),
    {
        let r = PatchRegistry {
            patches: Vec::new(),
            index_path: None,
            process_cfg: ProcessCfg { smart_punctuation: false },
        };
        proof {
            assert(r@.patches =~= Seq::<EntryModel>::empty());
        }
        r
    }

    /// Index of the entry for `path`, if one exists.
    fn find_entry(&self, path: &str) -> (r: Option<usize>)
        ensures
            match r {
                Some(i) => i < self@.patches.len() && self@.patches[i as int].path == path@,
                None => !has_entry(self@, path@),
            },
    {
        let n = self.patches.len();
        let mut i: usize = 0;
        while i < n
            invariant
                i <= n,
                n == self.patches@.len(),
                forall|j: int| 0 <= j < i ==> self@.patches[j].path != path@,
            decreases n - i,
        {
            assert(self@.patches[i as int] == self.patches@[i as int]@);
            if str_eq(self.patches[i].path.as_str(), path) {
                return Some(i);
            }
            i += 1;
        }
        None
    }

    /// Convert a request `path` to the index path if it is the path to
    /// the site root.
    pub fn resolve_index_path(&self, path: String) -> (r: String)
        ensures
            r@ == spec_resolve(self@, path@),
    {
        match &self.index_path {
            Some(ip) => {
                if path.as_str().unicode_len() == 0 {
                    ip.clone()
                } else {
                    path
                }
            },
            None => path,
        }
    }

    /// Registers the preprocessed Markdown `md` for `path`, rendering and
    /// publishing exactly when it differs from what was last stored.
    pub fn new_patch(&mut self, path: String, md: String) -> (r: Option<PatchNotification>)
        requires
            registry_wf(old(self)@),
        ensures
            registry_wf(final(self)@),
            final(self)@ == spec_new_patch(old(self)@, path@, md@),
            match r {
                Some(n) => spec_new_patch_publishes(old(self)@, path@, md@) && n.path@ == path@
                    && n.html@ == rendered_markdown_of(md@, old(self)@.smart),
                None => !spec_new_patch_publishes(old(self)@, path@, md@),
            },
    {
        let ghost m = self@;
        match self.find_entry(path.as_str()) {
            Some(i) => {
                proof {
                    assert(has_entry(m, path@));
                    let k = entry_idx(m, path@);
                    assert(0 <= k < m.patches.len() && m.patches[k].path == path@);
                    assert(k == i) by {
                        if k != i {
                            assert(m.patches[k].path != m.patches[i as int].path);
                        }
                    }
                }
                if str_eq(self.patches[i].markdown.as_str(), md.as_str()) {
                    assert(!spec_new_patch_publishes(m, path@, md@));
                    assert(final(self)@ =~= spec_new_patch(m, path@, md@));
                    None
                } else {
                    let html = render_markdown(md.as_str(), self.process_cfg.smart_punctuation);
                    let note = PatchNotification { path: path.clone(), html: html.clone() };
                    let entry = PatchEntry { path, markdown: md, html };
                    self.patches[i] = entry;
                    proof {
                        assert(spec_new_patch_publishes(m, path@, md@));
                        assert(final(self)@.patches =~= spec_new_patch(m, path@, md@).patches);
                        let fm = final(self)@;
                        assert(forall|a: int, b: int|
                            0 <= a < b < fm.patches.len() ==> fm.patches[a].path
                                != fm.patches[b].path);
                    }
                    Some(note)
                }
            },
            None => {
                assert(!has_entry(m, path@));
                assert(spec_stored_markdown(m, path@) == Seq::<char>::empty());
                if md.as_str().unicode_len() == 0 {
                    proof {
                        assert(md@ =~= Seq::<char>::empty());
                        assert(!spec_new_patch_publishes(m, path@, md@));
                    }
                    let entry = PatchEntry { path, markdown: md, html: String::new() };
                    self.patches.push(entry);
                    proof {
                        assert(final(self)@.patches =~= spec_new_patch(m, path@, md@).patches);
                    }
                    None
                } else {
                    assert(md@ != Seq::<char>::empty()) by {
                        if md@ == Seq::<char>::empty() {
                            assert(md@.len() == 0);
                        }
                    }
                    let html = render_markdown(md.as_str(), self.process_cfg.smart_punctuation);
                    let note = PatchNotification { path: path.clone(), html: html.clone() };
                    let entry = PatchEntry { path, markdown: md, html };
                    self.patches.push(entry);
                    proof {
                        assert(final(self)@.patches =~= spec_new_patch(m, path@, md@).patches);
                    }
                    Some(note)
                }
            },
        }
    }

    /// Replaces the registry for a freshly rebuilt book: every live entry
    /// observes exactly one reload sentinel and is then forgotten, and
    /// the stored index path and render configuration are replaced.
    pub fn rebuild(&mut self, index_path: Option<String>, process_cfg: ProcessCfg) -> (r: Vec<
        PatchNotification,
    >)
        requires
            registry_wf(old(self)@),
        ensures
            registry_wf(final(self)@),
            final(self)@ == spec_rebuild(
                old(self)@,
                match index_path {
                    Option::Some(ip) => Option::Some(ip@),
                    Option::None => Option::None,
                },
                process_cfg,
            ),
            r@.len() == old(self)@.patches.len(),
            forall|i: int|
                0 <= i < r@.len() ==> r@[i].path@ == old(self)@.patches[i].path && r@[i].html@
                    == reload_sentinel(),
    {
        let ghost m = self@;
        let mut notes: Vec<PatchNotification> = Vec::new();
        let n = self.patches.len();
        let mut i: usize = 0;
        while i < n
            invariant
                i <= n,
                n == self.patches@.len(),
                self@ == m,
                notes@.len() == i,
                forall|j: int|
                    0 <= j < i ==> notes@[j].path@ == m.patches[j].path && notes@[j].html@
                        == reload_sentinel(),
            decreases n - i,
        {
            let sentinel = "__RELOAD".to_owned();
            proof {
                reveal_strlit("__RELOAD");
                assert(sentinel@ =~= reload_sentinel());
                assert(m.patches[i as int] == self.patches@[i as int]@);
            }
            let note = PatchNotification { path: self.patches[i].path.clone(), html: sentinel };
            notes.push(note);
            i += 1;
        }
        self.patches.clear();
        match index_path {
            Some(ip) => {
                let resolved = path_with_html_ext(ip.as_str());
                assert(resolved@.len() >= 5) by {
                    assert(html_ext().len() == 5);
                }
                self.index_path = Some(resolved);
            },
            None => {},
        }
        self.process_cfg = process_cfg;
        proof {
            assert(final(self)@.patches =~= Seq::<EntryModel>::empty());
        }
        notes
    }

    /// Discards all entries without publishing.
    pub fn clear(&mut self)
        requires
            registry_wf(old(self)@),
        ensures
            registry_wf(final(self)@),
            final(self)@.patches =~= Seq::<EntryModel>::empty(),
            final(self)@.index_path == old(self)@.index_path,
            final(self)@.smart == old(self)@.smart,
    {
        self.patches.clear();
        proof {
            assert(final(self)@.patches =~= Seq::<EntryModel>::empty());
        }
    }

    /// Attaches a subscriber: resolves the index path, creates an empty
    /// entry when none exists, and hands back the current body.
    pub fn watch(&mut self, path: String) -> (r: WatchSubscription)
        requires
            registry_wf(old(self)@),
        ensures
            registry_wf(final(self)@),
            final(self)@ == spec_watch_model(old(self)@, path@),
            r.path@ == spec_resolve(old(self)@, path@),
            r.current@ == spec_watch_current(old(self)@, path@),
    {
        let ghost m = self@;
        let resolved = self.resolve_index_path(path);
        match self.find_entry(resolved.as_str()) {
            Some(i) => {
                proof {
                    assert(has_entry(m, resolved@));
                    let k = entry_idx(m, resolved@);
                    assert(0 <= k < m.patches.len() && m.patches[k].path == resolved@);
                    assert(k == i) by {
                        if k != i {
                            assert(m.patches[k].path != m.patches[i as int].path);
                        }
                    }
                }
                let current = self.patches[i].html.clone();
                WatchSubscription { path: resolved, current }
            },
            None => {
                let entry = PatchEntry {
                    path: resolved.clone(),
                    markdown: String::new(),
                    html: String::new(),
                };
                self.patches.push(entry);
                proof {
                    assert(final(self)@.patches =~= spec_watch_model(m, path@).patches);
                }
                WatchSubscription { path: resolved, current: String::new() }
            },
        }
    }

    /// Whether an entry currently exists for `path`, after index-path
    /// resolution.
    pub fn has_patch(&self, path: String) -> (r: bool)
        ensures
            r == has_entry(self@, spec_resolve(self@, path@)),
    {
        let resolved = self.resolve_index_path(path);
        match self.find_entry(resolved.as_str()) {
            Some(_) => true,
            None => false,
        }
    }

    /// Applies one fire-and-forget request, handing back the publishes
    /// the caller must deliver.
    pub fn handle_request(&mut self, msg: PatchRegistryRequest) -> (r: Vec<PatchNotification>)
        requires
            registry_wf(old(self)@),
        ensures
            registry_wf(final(self)@),
            match msg {
                PatchRegistryRequest::NewPatch(p, md) => final(self)@ == spec_new_patch(
                    old(self)@,
                    p@,
                    md@,
                ) && if spec_new_patch_publishes(old(self)@, p@, md@) {
                    r@.len() == 1 && r@[0].path@ == p@ && r@[0].html@ == rendered_markdown_of(
                        md@,
                        old(self)@.smart,
                    )
                } else {
                    r@.len() == 0
                },
                PatchRegistryRequest::Rebuild { index_path, process_cfg } => final(self)@
                    == spec_rebuild(
                    old(self)@,
                    match index_path {
                        Option::Some(ip) => Option::Some(ip@),
                        Option::None => Option::None,
                    },
                    process_cfg,
                ) && r@.len() == old(self)@.patches.len() && forall|i: int|
                    0 <= i < r@.len() ==> r@[i].path@ == old(self)@.patches[i].path && r@[i].html@
                        == reload_sentinel(),
                PatchRegistryRequest::Clear => final(self)@.patches
                    =~= Seq::<EntryModel>::empty() && final(self)@.index_path
                    == old(self)@.index_path && final(self)@.smart == old(self)@.smart
                    && r@.len() == 0,
            },
    {
        match msg {
            PatchRegistryRequest::NewPatch(p, md) => {
                let mut notes: Vec<PatchNotification> = Vec::new();
                match self.new_patch(p, md) {
                    Some(n) => {
                        notes.push(n);
                    },
                    None => {},
                }
                notes
            },
            PatchRegistryRequest::Rebuild { index_path, process_cfg } => {
                self.rebuild(index_path, process_cfg)
            },
            PatchRegistryRequest::Clear => {
                self.clear();
                Vec::new()
            },
        }
    }

    /// Answers one query; queries never publish.
    pub fn handle_query(&mut self, msg: PatchRegistryQuery) -> (r: PatchRegistryResponse)
        requires
            registry_wf(old(self)@),
        ensures
            registry_wf(final(self)@),
            match msg {
                PatchRegistryQuery::Watch(p) => final(self)@ == spec_watch_model(old(self)@, p@)
                    && match r {
                    PatchRegistryResponse::WatchReceiver(s) => s.path@ == spec_resolve(
                        old(self)@,
                        p@,
                    ) && s.current@ == spec_watch_current(old(self)@, p@),
                    PatchRegistryResponse::HasPatch(_) => false,
                },
                PatchRegistryQuery::GetHasPatch(p) => final(self)@ == old(self)@ && match r {
                    PatchRegistryResponse::HasPatch(b) => b == has_entry(
                        old(self)@,
                        spec_resolve(old(self)@, p@),
                    ),
                    PatchRegistryResponse::WatchReceiver(_) => false,
                },
            },
    {
        match msg {
            PatchRegistryQuery::Watch(p) => {
                let sub = self.watch(p);
                PatchRegistryResponse::WatchReceiver(sub)
            },
            PatchRegistryQuery::GetHasPatch(p) => {
                let b = self.has_patch(p);
                PatchRegistryResponse::HasPatch(b)
            },
        }
    }
}

/// The entry index is the one holding `p`, by uniqueness of paths.
proof fn lemma_entry_idx_is(m: RegistryModel, p: Seq<char>, i: int)
    requires
        forall|a: int, b: int|
            0 <= a < b < m.patches.len() ==> m.patches[a].path != m.patches[b].path,
        0 <= i < m.patches.len(),
        m.patches[i].path == p,
    ensures
        has_entry(m, p),
        entry_idx(m, p) == i,
{
    assert(has_entry(m, p));
    let k = entry_idx(m, p);
    assert(0 <= k < m.patches.len() && m.patches[k].path == p);
    if k < i {
        assert(m.patches[k].path != m.patches[i].path);
    } else if i < k {
        assert(m.patches[i].path != m.patches[k].path);
    }
}

/// The registry never creates a second entry for a path: a `Watch` whose
/// entry already exists leaves the registry unchanged, so watching twice
/// creates at most one entry.
pub proof fn lemma_watch_idempotent(m: RegistryModel, p: Seq<char>)
    requires
        registry_wf(m),
    ensures
        spec_watch_model(spec_watch_model(m, p), p) == spec_watch_model(m, p),
{
    let rp = spec_resolve(m, p);
    let m1 = spec_watch_model(m, p);
    if has_entry(m, rp) {
        assert(m1 == m);
    } else {
        let n = m.patches.len() as int;
        assert(m1.patches[n].path == rp);
        assert(spec_resolve(m1, p) == rp);
        assert(has_entry(m1, rp));
        assert(spec_watch_model(m1, p) == m1);
    }
}

/// Whenever the index path is set, `Watch` on the empty path binds the
/// subscriber to the same entry as `Watch` on the index path itself.
pub proof fn lemma_index_resolution(m: RegistryModel, ip: Seq<char>)
    requires
        registry_wf(m),
        m.index_path == Option::Some(ip),
    ensures
        spec_resolve(m, Seq::<char>::empty()) == spec_resolve(m, ip),
        spec_watch_model(m, Seq::<char>::empty()) == spec_watch_model(m, ip),
        spec_watch_current(m, Seq::<char>::empty()) == spec_watch_current(m, ip),
{
    assert(ip.len() > 0);
    assert(spec_resolve(m, Seq::<char>::empty()) == ip);
    assert(spec_resolve(m, ip) == ip);
}

/// Two `NewPatch` requests carrying identical Markdown publish at most
/// one change: after the first, the same request publishes nothing and
/// leaves the registry as it is.
pub proof fn lemma_idempotent_patching(m: RegistryModel, p: Seq<char>, md: Seq<char>)
    requires
        registry_wf(m),
    ensures
        !spec_new_patch_publishes(spec_new_patch(m, p, md), p, md),
        spec_new_patch(spec_new_patch(m, p, md), p, md) == spec_new_patch(m, p, md),
{
    let m1 = spec_new_patch(m, p, md);
    if has_entry(m, p) {
        let k = entry_idx(m, p);
        assert(0 <= k < m.patches.len() && m.patches[k].path == p);
        if spec_new_patch_publishes(m, p, md) {
            assert(m1.patches =~= m.patches.update(
                k,
                EntryModel { path: p, markdown: md, html: rendered_markdown_of(md, m.smart) },
            ));
            assert(forall|a: int, b: int|
                0 <= a < b < m1.patches.len() ==> m1.patches[a].path != m1.patches[b].path) by {
                assert(forall|a: int|
                    0 <= a < m1.patches.len() ==> m1.patches[a].path == m.patches[a].path);
            }
            lemma_entry_idx_is(m1, p, k);
            assert(spec_stored_markdown(m1, p) == md);
        } else {
            assert(m1 == m);
            lemma_entry_idx_is(m, p, k);
        }
    } else {
        let n = m.patches.len() as int;
        assert(m1.patches[n].path == p);
        assert(forall|a: int, b: int|
            0 <= a < b < m1.patches.len() ==> m1.patches[a].path != m1.patches[b].path) by {
            assert(forall|a: int| 0 <= a < n ==> m1.patches[a].path == m.patches[a].path);
            assert forall|a: int| 0 <= a < n implies m1.patches[a].path != p by {
                if m.patches[a].path == p {
                    assert(has_entry(m, p));
                }
            }
        }
        lemma_entry_idx_is(m1, p, n);
        if spec_new_patch_publishes(m, p, md) {
            assert(spec_stored_markdown(m1, p) == md);
        } else {
            assert(md == Seq::<char>::empty());
            assert(spec_stored_markdown(m1, p) == md);
        }
    }
    assert(has_entry(m1, p));
}

} // verus!
