//! The previewer front state machine.
//!
//! It owns the book root, the socket address, the editor version map and
//! the ignored-paths set, and decides which subsystem actions each
//! incoming message causes. Editor buffers are accepted only with
//! strictly increasing versions, so patches apply in editor order.

use vstd::prelude::*;

verus! {

use crate::pathstr::str_eq;
use crate::pathstr::vec_contains_str;

/// One tracked editor document: its absolute path and the last accepted
/// version.
#[derive(Clone, Debug)]
pub struct VersionEntry {
    pub path: String,
    pub version: i32,
}

/// Mathematical model of one tracked document.
pub ghost struct VersionModel {
    pub path: Seq<char>,
    pub version: int,
}

impl View for VersionEntry {
    type V = VersionModel;

    open spec fn view(&self) -> VersionModel {
        VersionModel { path: self.path@, version: self.version as int }
    }
}

/// Messages understood by the previewer.
#[derive(Clone, Debug)]
pub enum PreviewInfo {
    /// Update the book root.
    BookRoot(String),
    OpenPreview {
        /// Socket address to serve at, in textual form.
        socket_address: Option<String>,
        /// Absolute path of the chapter file to open the browser at.
        open_browser_at: Option<String>,
    },
    /// Stop the preview server.
    StopPreview,
    /// Opened path.
    Opened { path: String, version: i32 },
    /// Content of a modified path.
    ModifiedContent { path: String, version: i32, content: String },
    /// Closed path.
    Closed(String),
}

/// Subsystem work a message asks the surrounding process to perform.
#[derive(Clone, Debug)]
pub enum PreviewAction {
    /// Start the rebuilder, registry and server for the current root,
    /// then possibly open the browser at the given absolute chapter path.
    StartSubsystems { open_browser_at: Option<String> },
    /// Stop the server, the rebuilder and then the registry.
    StopSubsystems,
    /// Forward an open-browser request to the running rebuilder.
    ForwardOpenBrowser(String),
    /// Forward an accepted editor buffer to the running rebuilder.
    ForwardModified { path: String, content: String },
}

/// Mathematical model of the previewer.
pub ghost struct PreviewerModel {
    pub book_root: Seq<char>,
    pub socket_address: Seq<char>,
    pub open_browser_at: Option<Seq<char>>,
    pub running: bool,
    pub versions: Seq<VersionModel>,
    pub ignored: Seq<Seq<char>>,
}

/// The previewer: the top-level actor state.
#[derive(Clone, Debug)]
pub struct Previewer {
    pub book_root: String,
    pub socket_address: String,
    pub open_browser_at: Option<String>,
    pub running: bool,
    pub versions: Vec<VersionEntry>,
    pub ignored_paths: Vec<String>,
}

impl View for Previewer {
    type V = PreviewerModel;

    open spec fn view(&self) -> PreviewerModel {
        PreviewerModel {
            book_root: self.book_root@,
            socket_address: self.socket_address@,
            open_browser_at: match self.open_browser_at {
                Option::Some(p) => Option::Some(p@),
                Option::None => Option::None,
            },
            running: self.running,
            versions: self.versions@.map(|i: int, e: VersionEntry| e@),
            ignored: self.ignored_paths@.map(|i: int, s: String| s@),
        }
    }
}

/// Paths in the version map and in the ignored set are unique.
pub open spec fn previewer_wf(m: PreviewerModel) -> bool {
    &&& forall|i: int, j: int|
        0 <= i < j < m.versions.len() ==> m.versions[i].path != m.versions[j].path
    &&& forall|i: int, j: int| 0 <= i < j < m.ignored.len() ==> m.ignored[i] != m.ignored[j]
}

/// Whether a version is tracked for `p`.
pub open spec fn has_version(m: PreviewerModel, p: Seq<char>) -> bool {
    exists|i: int| 0 <= i < m.versions.len() && m.versions[i].path == p
}

/// Index of the version entry for `p`; meaningful only when tracked.
pub open spec fn version_idx(m: PreviewerModel, p: Seq<char>) -> int {
    choose|i: int| 0 <= i < m.versions.len() && m.versions[i].path == p
}

/// The last accepted version for `p`, if any.
pub open spec fn spec_version_of(m: PreviewerModel, p: Seq<char>) -> Option<int> {
    if has_version(m, p) {
        Option::Some(m.versions[version_idx(m, p)].version)
    } else {
        Option::None
    }
}

/// Whether `p` is in the ignored-paths set.
pub open spec fn spec_is_ignored(m: PreviewerModel, p: Seq<char>) -> bool {
    exists|i: int| 0 <= i < m.ignored.len() && m.ignored[i] == p
}

/// The version map after `Opened { p, v }`: the maximum of the old and
/// new version wins.
pub open spec fn spec_opened_versions(m: PreviewerModel, p: Seq<char>, v: int) -> Seq<
    VersionModel,
> {
    if has_version(m, p) {
        let i = version_idx(m, p);
        if v > m.versions[i].version {
            m.versions.update(i, VersionModel { path: p, version: v })
        } else {
            m.versions
        }
    } else {
        m.versions.push(VersionModel { path: p, version: v })
    }
}

/// A modification is accepted only with a version strictly above the
/// last accepted one.
pub open spec fn spec_modified_accepts(m: PreviewerModel, p: Seq<char>, v: int) -> bool {
    match spec_version_of(m, p) {
        Option::Some(v0) => v > v0,
        Option::None => true,
    }
}

/// The version map after `ModifiedContent` with version `v`.
pub open spec fn spec_modified_versions(m: PreviewerModel, p: Seq<char>, v: int) -> Seq<
    VersionModel,
> {
    if spec_modified_accepts(m, p, v) {
        if has_version(m, p) {
            m.versions.update(version_idx(m, p), VersionModel { path: p, version: v })
        } else {
            m.versions.push(VersionModel { path: p, version: v })
        }
    } else {
        m.versions
    }
}

/// Well-formedness depends only on the version map and the ignored set.
proof fn lemma_wf_components(m1: PreviewerModel, m2: PreviewerModel)
    requires
        previewer_wf(m1),
        m2.versions == m1.versions,
        m2.ignored == m1.ignored,
    ensures
        previewer_wf(m2),
{
    assert forall|i: int, j: int|
        0 <= i < j < m2.versions.len() implies m2.versions[i].path != m2.versions[j].path by {
        assert(m2.versions[i] == m1.versions[i]);
        assert(m2.versions[j] == m1.versions[j]);
    }
    assert forall|i: int, j: int|
        0 <= i < j < m2.ignored.len() implies m2.ignored[i] != m2.ignored[j] by {
        assert(m2.ignored[i] == m1.ignored[i]);
        assert(m2.ignored[j] == m1.ignored[j]);
    }
}

impl Previewer {
    /// A fresh previewer, not yet running, that serves at the loopback
    /// address on the default port until told otherwise, and will open
    /// the browser at the site root once started.
    pub fn new() -> (r: Self)
        ensures
            previewer_wf(r@),
            r@.book_root.len() == 0,
            r@.socket_address == "127.0.0.1:3000"@,
            r@.running == false,
            r@.versions =~= Seq::<VersionModel>::empty(),
            r@.ignored =~= Seq::<Seq<char>>::empty(),
            r@.open_browser_at == Option::Some(Seq::<char>::empty()),
    {
        let r = Previewer {
            book_root: String::new(),
            socket_address: "127.0.0.1:3000".to_owned(),
            open_browser_at: Some(String::new()),
            running: false,
            versions: Vec::new(),
            ignored_paths: Vec::new(),
        };
        proof {
            assert(r@.versions =~= Seq::<VersionModel>::empty());
            assert(r@.ignored =~= Seq::<Seq<char>>::empty());
        }
        r
    }

    /// Index of the version entry for `path`, if one exists.
    fn find_version(&self, path: &str) -> (r: Option<usize>)
        ensures
            match r {
                Some(i) => i < self@.versions.len() && self@.versions[i as int].path == path@,
                None => !has_version(self@, path@),
            },
    {
        let n = self.versions.len();
        let mut i: usize = 0;
        while i < n
            invariant
                i <= n,
                n == self.versions@.len(),
                forall|j: int| 0 <= j < i ==> self@.versions[j].path != path@,
            decreases n - i,
        {
            assert(self@.versions[i as int] == self.versions@[i as int]@);
            if str_eq(self.versions[i].path.as_str(), path) {
                return Some(i);
            }
            i += 1;
        }
        None
    }

    /// Whether the watcher should drop events for `path` because an
    /// editor holds it open.
    pub fn is_ignored(&self, path: &str) -> (r: bool)
        ensures
            r == spec_is_ignored(self@, path@),
    {
        let b = vec_contains_str(&self.ignored_paths, path);
        proof {
            if b {
                let i = choose|i: int|
                    0 <= i < self.ignored_paths@.len() && self.ignored_paths@[i]@ == path@;
                assert(self@.ignored[i] == path@);
            }
            if spec_is_ignored(self@, path@) {
                let i = choose|i: int| 0 <= i < self@.ignored.len() && self@.ignored[i] == path@;
                assert(self.ignored_paths@[i]@ == path@);
            }
        }
        b
    }

    /// Records an opened document: its version joins the map (maximum
    /// wins) and its file events are ignored from now on.
    pub fn opened(&mut self, path: String, version: i32)
        requires
            previewer_wf(old(self)@),
        ensures
            previewer_wf(final(self)@),
            final(self)@.versions == spec_opened_versions(old(self)@, path@, version as int),
            final(self)@.ignored == if spec_is_ignored(old(self)@, path@) {
                old(self)@.ignored
            } else {
                old(self)@.ignored.push(path@)
            },
            final(self)@.book_root == old(self)@.book_root,
            final(self)@.socket_address == old(self)@.socket_address,
            final(self)@.open_browser_at == old(self)@.open_browser_at,
            final(self)@.running == old(self)@.running,
            spec_is_ignored(final(self)@, path@),
    {
        let ghost m = self@;
        if !self.is_ignored(path.as_str()) {
            self.ignored_paths.push(path.clone());
            proof {
                let s0 = self@;
                assert(s0.ignored =~= m.ignored.push(path@));
                let n = m.ignored.len() as int;
                assert(s0.ignored[n] == path@);
                assert forall|i: int, j: int|
                    0 <= i < j < s0.ignored.len() implies s0.ignored[i] != s0.ignored[j] by {
                    if j == n && m.ignored[i] == path@ {
                        assert(spec_is_ignored(m, path@));
                    }
                }
            }
        }
        let ghost m2 = self@;
        proof {
            assert(m2.versions == m.versions);
        }
        match self.find_version(path.as_str()) {
            Some(i) => {
                proof {
                    assert(has_version(m, path@)) by {
                        assert((i as int) < m.versions.len() && m.versions[i as int].path
                            == path@);
                    }
                    let k = version_idx(m, path@);
                    assert(0 <= k < m.versions.len() && m.versions[k].path == path@);
                    if k < i as int {
                        assert(m.versions[k].path != m.versions[i as int].path);
                    } else if (i as int) < k {
                        assert(m.versions[i as int].path != m.versions[k].path);
                    }
                }
                if version > self.versions[i].version {
                    let entry = VersionEntry { path, version };
                    self.versions[i] = entry;
                    proof {
                        let s1 = self@;
                        assert(s1.versions =~= spec_opened_versions(m, path@, version as int));
                        assert(forall|a: int|
                            0 <= a < s1.versions.len() ==> s1.versions[a].path
                                == m.versions[a].path);
                        assert forall|a: int, b: int|
                            0 <= a < b < s1.versions.len() implies s1.versions[a].path
                            != s1.versions[b].path by {
                            assert(s1.versions[a].path == m.versions[a].path);
                            assert(s1.versions[b].path == m.versions[b].path);
                        }
                    }
                } else {
                    assert(self@.versions =~= spec_opened_versions(m, path@, version as int));
                }
            },
            None => {
                let entry = VersionEntry { path, version };
                self.versions.push(entry);
                proof {
                    let s1 = self@;
                    assert(s1.versions =~= spec_opened_versions(m, path@, version as int));
                    let n = m.versions.len() as int;
                    assert forall|a: int, b: int|
                        0 <= a < b < s1.versions.len() implies s1.versions[a].path
                        != s1.versions[b].path by {
                        if b == n && m.versions[a].path == path@ {
                            assert(has_version(m, path@));
                        }
                    }
                }
            },
        }
    }

    /// Accepts an editor buffer only with a strictly increasing version;
    /// an accepted buffer is forwarded when the subsystems run.
    pub fn modified_content(&mut self, path: String, version: i32, content: String) -> (r: Vec<
        PreviewAction,
    >)
        requires
            previewer_wf(old(self)@),
        ensures
            previewer_wf(final(self)@),
            final(self)@.versions == spec_modified_versions(old(self)@, path@, version as int),
            final(self)@.ignored == old(self)@.ignored,
            final(self)@.book_root == old(self)@.book_root,
            final(self)@.socket_address == old(self)@.socket_address,
            final(self)@.open_browser_at == old(self)@.open_browser_at,
            final(self)@.running == old(self)@.running,
            if spec_modified_accepts(old(self)@, path@, version as int) && old(self)@.running {
                r@.len() == 1 && (r@[0] matches PreviewAction::ForwardModified {
                    path: fp,
                    content: fc,
                } && fp@ == path@ && fc@ == content@)
            } else {
                r@.len() == 0
            },
    {
        let ghost m = self@;
        let accepted: bool;
        match self.find_version(path.as_str()) {
            Some(i) => {
                proof {
                    assert(has_version(m, path@));
                    let k = version_idx(m, path@);
                    assert(0 <= k < m.versions.len() && m.versions[k].path == path@);
                    if k < i as int {
                        assert(m.versions[k].path != m.versions[i as int].path);
                    } else if (i as int) < k {
                        assert(m.versions[i as int].path != m.versions[k].path);
                    }
                }
                if self.versions[i].version < version {
                    let entry = VersionEntry { path: path.clone(), version };
                    self.versions[i] = entry;
                    accepted = true;
                    proof {
                        let s1 = self@;
                        assert(s1.versions =~= spec_modified_versions(m, path@, version as int));
                        assert(forall|a: int|
                            0 <= a < s1.versions.len() ==> s1.versions[a].path
                                == m.versions[a].path);
                        assert forall|a: int, b: int|
                            0 <= a < b < s1.versions.len() implies s1.versions[a].path
                            != s1.versions[b].path by {
                            assert(s1.versions[a].path == m.versions[a].path);
                            assert(s1.versions[b].path == m.versions[b].path);
                        }
                    }
                } else {
                    accepted = false;
                    assert(self@.versions =~= spec_modified_versions(m, path@, version as int));
                }
            },
            None => {
                let entry = VersionEntry { path: path.clone(), version };
                self.versions.push(entry);
                accepted = true;
                proof {
                    let s1 = self@;
                    assert(s1.versions =~= spec_modified_versions(m, path@, version as int));
                    let n = m.versions.len() as int;
                    assert forall|a: int, b: int|
                        0 <= a < b < s1.versions.len() implies s1.versions[a].path
                        != s1.versions[b].path by {
                        if b == n && m.versions[a].path == path@ {
                            assert(has_version(m, path@));
                        }
                    }
                }
            },
        }
        proof {
            let s2 = self@;
            assert(s2.ignored == m.ignored);
            assert forall|a: int, b: int|
                0 <= a < b < s2.ignored.len() implies s2.ignored[a] != s2.ignored[b] by {
                assert(m.ignored[a] != m.ignored[b]);
            }
        }
        let mut actions: Vec<PreviewAction> = Vec::new();
        if accepted && self.running {
            actions.push(PreviewAction::ForwardModified { path, content });
        }
        actions
    }

    /// Forgets a closed document: its version and its ignored-paths
    /// entry are removed.
    #[verifier::loop_isolation(false)]
    pub fn closed(&mut self, path: String)
        requires
            previewer_wf(old(self)@),
        ensures
            previewer_wf(final(self)@),
            final(self)@.versions == if has_version(old(self)@, path@) {
                old(self)@.versions.remove(version_idx(old(self)@, path@))
            } else {
                old(self)@.versions
            },
            !has_version(final(self)@, path@),
            !spec_is_ignored(final(self)@, path@),
            final(self)@.book_root == old(self)@.book_root,
            final(self)@.socket_address == old(self)@.socket_address,
            final(self)@.open_browser_at == old(self)@.open_browser_at,
            final(self)@.running == old(self)@.running,
    {
        let ghost m = self@;
        match self.find_version(path.as_str()) {
            Some(i) => {
                proof {
                    assert(has_version(m, path@));
                    let k = version_idx(m, path@);
                    assert(0 <= k < m.versions.len() && m.versions[k].path == path@);
                    if k < i as int {
                        assert(m.versions[k].path != m.versions[i as int].path);
                    } else if (i as int) < k {
                        assert(m.versions[i as int].path != m.versions[k].path);
                    }
                }
                self.versions.remove(i);
                proof {
                    let s1 = self@;
                    assert(s1.versions =~= m.versions.remove(i as int));
                    assert forall|a: int| 0 <= a < s1.versions.len() implies s1.versions[a].path
                        != path@ by {
                        if a < i as int {
                            assert(s1.versions[a] == m.versions[a]);
                            assert(m.versions[a].path != m.versions[i as int].path);
                        } else {
                            assert(s1.versions[a] == m.versions[a + 1]);
                            assert(m.versions[i as int].path != m.versions[a + 1].path);
                        }
                    }
                    assert forall|a: int, b: int|
                        0 <= a < b < s1.versions.len() implies s1.versions[a].path
                        != s1.versions[b].path by {
                        if b < i as int {
                            assert(s1.versions[a] == m.versions[a]);
                            assert(s1.versions[b] == m.versions[b]);
                        } else if a < i as int {
                            assert(s1.versions[a] == m.versions[a]);
                            assert(s1.versions[b] == m.versions[b + 1]);
                        } else {
                            assert(s1.versions[a] == m.versions[a + 1]);
                            assert(s1.versions[b] == m.versions[b + 1]);
                        }
                    }
                }
            },
            None => {},
        }
        let ghost m2 = self@;
        proof {
            assert(forall|a: int|
                0 <= a < m2.versions.len() ==> m2.versions[a].path != path@);
            assert(m2.ignored == old(self)@.ignored);
            assert(forall|a: int, b: int|
                0 <= a < b < m2.ignored.len() ==> m2.ignored[a] != m2.ignored[b]);
        }
        let n = self.ignored_paths.len();
        let mut i: usize = 0;
        while i < n
            invariant
                i <= n,
                n == self.ignored_paths@.len(),
                self@ == m2,
                forall|j: int| 0 <= j < i ==> self@.ignored[j] != path@,
                forall|a: int| 0 <= a < m2.versions.len() ==> m2.versions[a].path != path@,
                forall|a: int, b: int|
                    0 <= a < b < m2.ignored.len() ==> m2.ignored[a] != m2.ignored[b],
            decreases n - i,
        {
            assert(self@.ignored[i as int] == self.ignored_paths@[i as int]@);
            if str_eq(self.ignored_paths[i].as_str(), path.as_str()) {
                self.ignored_paths.remove(i);
                proof {
                    let s2 = self@;
                    assert(s2.versions == m2.versions);
                    assert(s2.ignored =~= m2.ignored.remove(i as int));
                    assert forall|a: int| 0 <= a < s2.ignored.len() implies s2.ignored[a]
                        != path@ by {
                        if a < i as int {
                            assert(s2.ignored[a] == m2.ignored[a]);
                            assert(m2.ignored[a] != m2.ignored[i as int]);
                        } else {
                            assert(s2.ignored[a] == m2.ignored[a + 1]);
                            assert(m2.ignored[i as int] != m2.ignored[a + 1]);
                        }
                    }
                    assert forall|a: int, b: int|
                        0 <= a < b < s2.ignored.len() implies s2.ignored[a] != s2.ignored[b] by {
                        if b < i as int {
                            assert(s2.ignored[a] == m2.ignored[a]);
                            assert(s2.ignored[b] == m2.ignored[b]);
                        } else if a < i as int {
                            assert(s2.ignored[a] == m2.ignored[a]);
                            assert(s2.ignored[b] == m2.ignored[b + 1]);
                        } else {
                            assert(s2.ignored[a] == m2.ignored[a + 1]);
                            assert(s2.ignored[b] == m2.ignored[b + 1]);
                        }
                    }
                }
                return ;
            }
            i += 1;
        }
    }

    /// Updates the book root. An unchanged root is ignored; a changed
    /// root restarts the whole subsystem when it is running.
    pub fn set_book_root(&mut self, book_root: String) -> (r: Vec<PreviewAction>)
        requires
            previewer_wf(old(self)@),
        ensures
            previewer_wf(final(self)@),
            final(self)@.versions == old(self)@.versions,
            final(self)@.ignored == old(self)@.ignored,
            final(self)@.socket_address == old(self)@.socket_address,
            final(self)@.running == old(self)@.running,
            book_root@ == old(self)@.book_root ==> final(self)@ == old(self)@ && r@.len() == 0,
            book_root@ != old(self)@.book_root ==> final(self)@.book_root == book_root@ && if old(self)@.running {
                r@.len() == 2 && r@[0] is StopSubsystems && (r@[1]
                    matches PreviewAction::StartSubsystems { open_browser_at: ob } && (match ob {
                    Option::Some(p) => old(self)@.open_browser_at == Option::Some(p@),
                    Option::None => old(self)@.open_browser_at is None,
                })) && final(self)@.open_browser_at is None
            } else {
                r@.len() == 0 && final(self)@.open_browser_at == old(self)@.open_browser_at
            },
    {
        if str_eq(book_root.as_str(), self.book_root.as_str()) {
            return Vec::new();
        }
        self.book_root = book_root;
        let mut actions: Vec<PreviewAction> = Vec::new();
        if self.running {
            let open_browser_at = self.open_browser_at.take();
            actions.push(PreviewAction::StopSubsystems);
            actions.push(PreviewAction::StartSubsystems { open_browser_at });
        }
        proof {
            lemma_wf_components(old(self)@, self@);
        }
        actions
    }

    /// Opens the preview: starts the subsystems when stopped, or
    /// forwards a pending open-browser request when already running.
    pub fn open_preview(
        &mut self,
        socket_address: Option<String>,
        open_browser_at: Option<String>,
    ) -> (r: Vec<PreviewAction>)
        requires
            previewer_wf(old(self)@),
        ensures
            previewer_wf(final(self)@),
            final(self)@.versions == old(self)@.versions,
            final(self)@.ignored == old(self)@.ignored,
            final(self)@.book_root == old(self)@.book_root,
            final(self)@.socket_address == (match socket_address {
                Option::Some(a) => a@,
                Option::None => old(self)@.socket_address,
            }),
            (final(self)@.open_browser_at is None),
            final(self)@.running,
            ({
                let pending = match open_browser_at {
                    Option::Some(p) => Option::Some(p@),
                    Option::None => old(self)@.open_browser_at,
                };
                if old(self)@.running {
                    match pending {
                        Option::Some(p) => r@.len() == 1 && (r@[0]
                            matches PreviewAction::ForwardOpenBrowser(q) && q@ == p),
                        Option::None => r@.len() == 0,
                    }
                } else {
                    r@.len() == 1 && (r@[0] matches PreviewAction::StartSubsystems {
                        open_browser_at: ob,
                    } && (match ob {
                        Option::Some(q) => pending == Option::Some(q@),
                        Option::None => pending is None,
                    }))
                }
            }),
    {
        match socket_address {
            Some(a) => {
                self.socket_address = a;
            },
            None => {},
        }
        match open_browser_at {
            Some(p) => {
                self.open_browser_at = Some(p);
            },
            None => {},
        }
        let mut actions: Vec<PreviewAction> = Vec::new();
        let pending = self.open_browser_at.take();
        if self.running {
            match pending {
                Some(p) => {
                    actions.push(PreviewAction::ForwardOpenBrowser(p));
                },
                None => {},
            }
        } else {
            self.running = true;
            actions.push(PreviewAction::StartSubsystems { open_browser_at: pending });
        }
        proof {
            lemma_wf_components(old(self)@, self@);
        }
        actions
    }

    /// Stops the preview subsystems.
    pub fn stop_preview(&mut self) -> (r: Vec<PreviewAction>)
        requires
            previewer_wf(old(self)@),
        ensures
            previewer_wf(final(self)@),
            final(self)@ == (PreviewerModel { running: false, ..old(self)@ }),
            r@.len() == 1 && (r@[0] is StopSubsystems),
    {
        self.running = false;
        let mut actions: Vec<PreviewAction> = Vec::new();
        actions.push(PreviewAction::StopSubsystems);
        proof {
            lemma_wf_components(old(self)@, self@);
        }
        actions
    }

    /// Applies one message, handing back the subsystem work it causes.
    pub fn handle_cast(&mut self, msg: PreviewInfo) -> (r: Vec<PreviewAction>)
        requires
            previewer_wf(old(self)@),
        ensures
            previewer_wf(final(self)@),
            match msg {
                PreviewInfo::ModifiedContent { path, version, content } => final(self)@.versions
                    == spec_modified_versions(old(self)@, path@, version as int) && final(self)@.ignored == old(self)@.ignored && final(self)@.running == old(self)@.running && if
                 spec_modified_accepts(old(self)@, path@, version as int) && old(self)@.running {
                    r@.len() == 1 && (r@[0] matches PreviewAction::ForwardModified {
                        path: fp,
                        content: fc,
                    } && fp@ == path@ && fc@ == content@)
                } else {
                    r@.len() == 0
                },
                PreviewInfo::Opened { path, version } => final(self)@.versions
                    == spec_opened_versions(old(self)@, path@, version as int) && spec_is_ignored(
                    final(self)@,
                    path@,
                ) && r@.len() == 0,
                PreviewInfo::Closed(path) => !has_version(final(self)@, path@) && !spec_is_ignored(
                    final(self)@,
                    path@,
                ) && r@.len() == 0,
                PreviewInfo::BookRoot(root) => final(self)@.book_root == root@ && final(self)@.versions == old(self)@.versions && final(self)@.ignored == old(self)@.ignored
                    && final(self)@.socket_address == old(self)@.socket_address && final(self)@.running == old(self)@.running && if root@ == old(self)@.book_root {
                    final(self)@ == old(self)@ && r@.len() == 0
                } else if old(self)@.running {
                    r@.len() == 2 && (r@[0] is StopSubsystems) && (r@[1]
                        matches PreviewAction::StartSubsystems { open_browser_at: ob } && (
                    match ob {
                        Option::Some(p) => old(self)@.open_browser_at == Option::Some(p@),
                        Option::None => (old(self)@.open_browser_at is None),
                    })) && (final(self)@.open_browser_at is None)
                } else {
                    r@.len() == 0 && final(self)@.open_browser_at == old(self)@.open_browser_at
                },
                PreviewInfo::StopPreview => final(self)@ == (PreviewerModel {
                    running: false,
                    ..old(self)@
                }) && r@.len() == 1 && (r@[0] is StopSubsystems),
                PreviewInfo::OpenPreview { socket_address, open_browser_at } => final(self)@.running && final(self)@.versions == old(self)@.versions && final(self)@.ignored
                    == old(self)@.ignored && final(self)@.book_root == old(self)@.book_root
                    && final(self)@.socket_address == (match socket_address {
                    Option::Some(a) => a@,
                    Option::None => old(self)@.socket_address,
                }) && (final(self)@.open_browser_at is None) && ({
                    let pending = match open_browser_at {
                        Option::Some(p) => Option::Some(p@),
                        Option::None => old(self)@.open_browser_at,
                    };
                    if old(self)@.running {
                        match pending {
                            Option::Some(p) => r@.len() == 1 && (r@[0]
                                matches PreviewAction::ForwardOpenBrowser(q) && q@ == p),
                            Option::None => r@.len() == 0,
                        }
                    } else {
                        r@.len() == 1 && (r@[0] matches PreviewAction::StartSubsystems {
                            open_browser_at: ob,
                        } && (match ob {
                            Option::Some(q) => pending == Option::Some(q@),
                            Option::None => (pending is None),
                        }))
                    }
                }),
            },
    {
        match msg {
            PreviewInfo::BookRoot(root) => self.set_book_root(root),
            PreviewInfo::OpenPreview { socket_address, open_browser_at } => self.open_preview(
                socket_address,
                open_browser_at,
            ),
            PreviewInfo::StopPreview => self.stop_preview(),
            PreviewInfo::Opened { path, version } => {
                self.opened(path, version);
                Vec::new()
            },
            PreviewInfo::ModifiedContent { path, version, content } => self.modified_content(
                path,
                version,
                content,
            ),
            PreviewInfo::Closed(path) => {
                self.closed(path);
                Vec::new()
            },
        }
    }
}

/// Versions forwarded for one path strictly increase: once a buffer with
/// version `v1` is accepted, only a strictly larger version is accepted
/// next for that path.
pub proof fn lemma_version_monotonicity(m: PreviewerModel, p: Seq<char>, v1: int, v2: int)
    requires
        previewer_wf(m),
        spec_modified_accepts(m, p, v1),
        spec_modified_accepts(
            PreviewerModel { versions: spec_modified_versions(m, p, v1), ..m },
            p,
            v2,
        ),
    ensures
        v2 > v1,
{
    let m1 = PreviewerModel { versions: spec_modified_versions(m, p, v1), ..m };
    if has_version(m, p) {
        let k = version_idx(m, p);
        assert(0 <= k < m.versions.len() && m.versions[k].path == p);
        assert(m1.versions =~= m.versions.update(k, VersionModel { path: p, version: v1 }));
        assert(forall|a: int, b: int|
            0 <= a < b < m1.versions.len() ==> m1.versions[a].path != m1.versions[b].path) by {
            assert(forall|a: int|
                0 <= a < m1.versions.len() ==> m1.versions[a].path == m.versions[a].path);
        }
        assert(m1.versions[k].path == p);
        assert(has_version(m1, p)) by {
            assert(0 <= k < m1.versions.len() && m1.versions[k].path == p);
        }
        let k1 = version_idx(m1, p);
        assert(0 <= k1 < m1.versions.len() && m1.versions[k1].path == p);
        if k1 < k {
            assert(m1.versions[k1].path != m1.versions[k].path);
        } else if k < k1 {
            assert(m1.versions[k].path != m1.versions[k1].path);
        }
        assert(m1.versions[k1].version == v1);
    } else {
        let n = m.versions.len() as int;
        assert(m1.versions =~= m.versions.push(VersionModel { path: p, version: v1 }));
        assert(m1.versions[n].path == p);
        assert(has_version(m1, p)) by {
            assert(0 <= n < m1.versions.len() && m1.versions[n].path == p);
        }
        let k1 = version_idx(m1, p);
        assert(0 <= k1 < m1.versions.len() && m1.versions[k1].path == p);
        if k1 < n {
            assert(m1.versions[k1] == m.versions[k1]);
            assert(has_version(m, p));
        }
        assert(m1.versions[k1].version == v1);
    }
}

} // verus!
