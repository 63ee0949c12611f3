//! The gitignore binding: locating, loading and consulting the ignore
//! file nearest above the book root.
//!
//! The matcher itself comes from the `ignore` crate; the walk up the
//! ancestor directories and the classification pipeline around the
//! matcher are verified here.

use crate::pathstr::{
    is_abs_path, last_slash_idx, parent_spec, path_join, path_join_spec, path_parent,
};
use crate::watch_files::paths_view;
use vstd::prelude::*;

verus! {

#[verifier::external_type_specification]
#[verifier::external_body]
pub struct ExGitignore(ignore::gitignore::Gitignore);

/// The characters of the ignore file's name.
pub open spec fn gitignore_file_name() -> Seq<char> {
    seq!['.', 'g', 'i', 't', 'i', 'g', 'n', 'o', 'r', 'e']
}

/// The active gitignore: the compiled matcher, the path of the ignore
/// file it was read from, and the canonical directory its patterns are
/// anchored at.
pub struct GitignoreBinding {
    pub matcher: ignore::gitignore::Gitignore,
    pub gitignore_path: String,
    pub ignore_root: String,
}

/// Mathematical model of the binding: the matcher is opaque.
pub ghost struct GitignoreModel {
    pub gitignore_path: Seq<char>,
    pub ignore_root: Seq<char>,
}

impl View for GitignoreBinding {
    type V = GitignoreModel;

    open spec fn view(&self) -> GitignoreModel {
        GitignoreModel { gitignore_path: self.gitignore_path@, ignore_root: self.ignore_root@ }
    }
}

/// Relies on `std::path::Path::exists`: whether something on disk
/// answers to the path right now.
#[verifier::external_body]
fn path_exists(p: &str) -> (r: bool) {
    std::path::Path::new(p).exists()
}

/// Relies on `std::path::Path::canonicalize`: the canonical form of the
/// path if the file system can resolve it.
#[verifier::external_body]
fn canonicalize_path(p: &str) -> (r: Option<String>) {
    match std::path::Path::new(p).canonicalize() {
        Ok(c) => Some(c.to_string_lossy().into_owned()),
        Err(_) => None,
    }
}

/// Relies on `std::path::Path::is_dir`: whether the path names a
/// directory on disk right now.
#[verifier::external_body]
fn path_is_dir(p: &str) -> (r: bool) {
    std::path::Path::new(p).is_dir()
}

/// Relies on `ignore::gitignore::Gitignore::new`: builds a matcher from
/// the ignore file at the path; a file that cannot be read yields a
/// matcher with fewer patterns, never a panic. The partial-error report
/// is dropped, as a failure to read is treated as no ignore file.
#[verifier::external_body]
fn gitignore_new(path: &str) -> (r: ignore::gitignore::Gitignore) {
    let (matcher, _err) = ignore::gitignore::Gitignore::new(std::path::Path::new(path));
    matcher
}

/// Relies on `pathdiff::diff_paths`: when both arguments are absolute
/// they share the leading root component, so the walk from `base` to
/// `path` never starts at the root and the result, if any, is relative.
#[verifier::external_body]
fn rel_path_between(path: &str, base: &str) -> (r: Option<String>)
    ensures
        match r {
            Some(q) => is_abs_path(path@) && is_abs_path(base@) ==> !is_abs_path(q@),
            None => true,
        },
{
    pathdiff::diff_paths(std::path::Path::new(path), std::path::Path::new(base)).map(
        |p| p.to_string_lossy().into_owned(),
    )
}

/// Relies on `Gitignore::matched_path_or_any_parents` with the standard
/// parent-propagation rule; the method asserts that the path it is given
/// carries no root, so only relative paths reach it.
#[verifier::external_body]
fn gitignore_matches(g: &ignore::gitignore::Gitignore, rel: &str, is_dir: bool) -> (r: bool)
    requires
        !is_abs_path(rel@),
{
    g.matched_path_or_any_parents(std::path::Path::new(rel), is_dir).is_ignore()
}

/// The last separator of a nonempty path without one reports `-1`;
/// otherwise it lies inside the path and holds a separator.
proof fn lemma_last_slash_in_range(p: Seq<char>)
    requires
        last_slash_idx(p) != -1,
    ensures
        0 <= last_slash_idx(p) < p.len(),
        p[last_slash_idx(p)] == '/',
    decreases p.len(),
{
    if p.len() == 0 {
    } else if p[p.len() - 1] == '/' {
    } else {
        lemma_last_slash_in_range(p.drop_last());
        assert(p.drop_last()[last_slash_idx(p.drop_last())] == p[last_slash_idx(p)]);
    }
}

/// A parent directory is strictly shorter than its path.
proof fn lemma_parent_shorter(p: Seq<char>, q: Seq<char>)
    requires
        parent_spec(p) == Option::Some(q),
    ensures
        q.len() < p.len(),
{
    if p.len() == 0 || p == seq!['/'] {
        assert(false);
    } else if last_slash_idx(p) == -1 {
    } else {
        lemma_last_slash_in_range(p);
        if last_slash_idx(p) == 0 {
            assert(p.len() >= 2) by {
                if p.len() == 1 {
                    assert(p =~= seq!['/']);
                }
            }
        }
    }
}

/// The ignore-file candidates of a book root: every ancestor
/// directory, the book root itself first and each parent after it,
/// joined with the ignore file's name.
pub open spec fn spec_ignore_candidates(root: Seq<char>) -> Seq<Seq<char>>
    decreases root.len(),
    via spec_ignore_candidates_decreases
{
    seq![path_join_spec(root, gitignore_file_name())] + (match parent_spec(root) {
        Option::Some(q) => spec_ignore_candidates(q),
        Option::None => Seq::empty(),
    })
}

#[via_fn]
proof fn spec_ignore_candidates_decreases(root: Seq<char>) {
    match parent_spec(root) {
        Option::Some(q) => lemma_parent_shorter(root, q),
        Option::None => {},
    }
}

/// The first candidate whose existence verdict is a hit, nearest
/// ancestor first; `None` exactly when no verdict is a hit.
pub open spec fn spec_first_hit(cands: Seq<Seq<char>>, vs: Seq<bool>) -> Option<Seq<char>>
    decreases cands.len(),
{
    if cands.len() == 0 {
        Option::None
    } else if vs[0] {
        Option::Some(cands[0])
    } else {
        spec_first_hit(cands.drop_first(), vs.drop_first())
    }
}

/// Every ignore-file candidate of the book root, nearest first.
pub fn ancestor_candidates(book_root: &str) -> (r: Vec<String>)
    ensures
        paths_view(r@) == spec_ignore_candidates(book_root@),
{
    let mut out: Vec<String> = Vec::new();
    let mut cur = book_root.to_owned();
    proof {
        assert(paths_view(out@) =~= Seq::<Seq<char>>::empty());
        assert(spec_ignore_candidates(book_root@) =~= paths_view(out@) + spec_ignore_candidates(
            cur@,
        ));
    }
    loop
        invariant
            spec_ignore_candidates(book_root@) =~= paths_view(out@) + spec_ignore_candidates(
                cur@,
            ),
        decreases cur@.len(),
    {
        let ghost prev = paths_view(out@);
        let ghost cur_view = cur@;
        let candidate = path_join(cur.as_str(), ".gitignore");
        proof {
            reveal_strlit(".gitignore");
            assert(".gitignore"@ =~= gitignore_file_name());
        }
        out.push(candidate);
        proof {
            assert(paths_view(out@) =~= prev + seq![path_join_spec(
                cur_view,
                gitignore_file_name(),
            )]);
        }
        match path_parent(cur.as_str()) {
            Some(parent) => {
                proof {
                    lemma_parent_shorter(cur_view, parent@);
                    assert(spec_ignore_candidates(cur_view) =~= seq![path_join_spec(
                        cur_view,
                        gitignore_file_name(),
                    )] + spec_ignore_candidates(parent@));
                    assert(spec_ignore_candidates(book_root@) =~= paths_view(out@)
                        + spec_ignore_candidates(parent@));
                }
                cur = parent;
            },
            None => {
                proof {
                    assert(spec_ignore_candidates(cur_view) =~= seq![path_join_spec(
                        cur_view,
                        gitignore_file_name(),
                    )]);
                    assert(paths_view(out@) =~= spec_ignore_candidates(book_root@));
                }
                return out;
            },
        }
    }
}

/// Probes the disk once per candidate. Nothing is assumed about the
/// verdicts beyond their number: the chooser is verified for every
/// outcome.
pub fn probe_existing(candidates: &Vec<String>) -> (r: Vec<bool>)
    ensures
        r@.len() == candidates@.len(),
{
    let n = candidates.len();
    let mut out: Vec<bool> = Vec::new();
    let mut i: usize = 0;
    while i < n
        invariant
            i <= n,
            n == candidates@.len(),
            out@.len() == i,
        decreases n - i,
    {
        let v = path_exists(candidates[i].as_str());
        out.push(v);
        i += 1;
    }
    out
}

/// Picks the first candidate, nearest ancestor first, whose verdict is
/// a hit; `None` exactly when no verdict is a hit.
pub fn first_existing(candidates: &Vec<String>, verdicts: &Vec<bool>) -> (r: Option<String>)
    requires
        candidates@.len() == verdicts@.len(),
    ensures
        match r {
            Some(p) => spec_first_hit(paths_view(candidates@), verdicts@) == Option::Some(p@),
            None => (spec_first_hit(paths_view(candidates@), verdicts@) is None),
        },
{
    let ghost pv = paths_view(candidates@);
    let n = candidates.len();
    let mut i: usize = 0;
    proof {
        assert(pv.subrange(0, n as int) =~= pv);
        assert(verdicts@.subrange(0, n as int) =~= verdicts@);
        assert(pv.subrange(i as int, n as int) =~= pv);
        assert(verdicts@.subrange(i as int, n as int) =~= verdicts@);
    }
    while i < n
        invariant
            i <= n,
            n == candidates@.len(),
            n == verdicts@.len(),
            pv == paths_view(candidates@),
            spec_first_hit(pv, verdicts@) == spec_first_hit(
                pv.subrange(i as int, n as int),
                verdicts@.subrange(i as int, n as int),
            ),
        decreases n - i,
    {
        proof {
            assert(pv.subrange(i as int, n as int)[0] == pv[i as int]);
            assert(verdicts@.subrange(i as int, n as int)[0] == verdicts@[i as int]);
            assert(pv.subrange(i as int, n as int).drop_first() =~= pv.subrange(
                i as int + 1,
                n as int,
            ));
            assert(verdicts@.subrange(i as int, n as int).drop_first() =~= verdicts@.subrange(
                i as int + 1,
                n as int,
            ));
            assert(pv[i as int] == candidates@[i as int]@);
        }
        if verdicts[i] {
            return Some(candidates[i].clone());
        }
        i += 1;
    }
    proof {
        assert(pv.subrange(n as int, n as int) =~= Seq::<Seq<char>>::empty());
    }
    None
}

/// Walks the ancestors of the book root, nearest first, and hands back
/// the first ignore file that exists on disk: the first candidate the
/// disk probes report, and `None` exactly when the probes report none.
pub fn find_ignore_path(book_root: &str) -> (r: Option<String>)
    ensures
        exists|vs: Seq<bool>|
            vs.len() == spec_ignore_candidates(book_root@).len() && (match r {
                Some(p) => spec_first_hit(spec_ignore_candidates(book_root@), vs)
                    == Option::Some(p@),
                None => (spec_first_hit(spec_ignore_candidates(book_root@), vs) is None),
            }),
{
    let candidates = ancestor_candidates(book_root);
    let verdicts = probe_existing(&candidates);
    let r = first_existing(&candidates, &verdicts);
    proof {
        let vs = verdicts@;
        assert(vs.len() == spec_ignore_candidates(book_root@).len() && (match r {
            Some(p) => spec_first_hit(spec_ignore_candidates(book_root@), vs) == Option::Some(
                p@,
            ),
            None => (spec_first_hit(spec_ignore_candidates(book_root@), vs) is None),
        }));
    }
    r
}

/// Locates, loads and anchors the gitignore nearest above the book
/// root: the binding's ignore file is the first one the disk probes
/// report among the ancestors, nearest first, and its patterns are
/// anchored at that file's canonicalized directory. A failure to read
/// or to resolve the directory is treated as no ignore file.
pub fn maybe_make_gitignore(book_root: &str) -> (r: Option<GitignoreBinding>)
    ensures
        match r {
            Some(b) => exists|vs: Seq<bool>|
                vs.len() == spec_ignore_candidates(book_root@).len() && spec_first_hit(
                    spec_ignore_candidates(book_root@),
                    vs,
                ) == Option::Some(b@.gitignore_path),
            None => true,
        },
{
    match find_ignore_path(book_root) {
        Some(gitignore_path) => {
            let matcher = gitignore_new(gitignore_path.as_str());
            match path_parent(gitignore_path.as_str()) {
                Some(dir) => {
                    match canonicalize_path(dir.as_str()) {
                        Some(ignore_root) => {
                            Some(GitignoreBinding { matcher, gitignore_path, ignore_root })
                        },
                        None => None,
                    }
                },
                None => None,
            }
        },
        None => None,
    }
}

/// Whether the active gitignore ignores `path`, which must be absolute:
/// the path is taken relative to the binding's anchor directory and the
/// matcher consulted with the standard parent-propagation rule.
pub fn is_ignored_file(binding: &GitignoreBinding, path: &str) -> (r: bool)
    requires
        is_abs_path(path@),
{
    if !crate::pathstr::path_is_abs(binding.ignore_root.as_str()) {
        return false;
    }
    match rel_path_between(path, binding.ignore_root.as_str()) {
        Some(rel) => {
            let is_dir = path_is_dir(rel.as_str());
            gitignore_matches(&binding.matcher, rel.as_str(), is_dir)
        },
        None => false,
    }
}

} // verus!
