//! The watch-and-debounce pipeline's filtering stage.
//!
//! Batches of changed absolute paths are deduplicated, then every path
//! inside the book root that the active gitignore ignores is dropped.
//! Paths outside the book root are extra-watch inputs and always kept.

use crate::git_ignore::{is_ignored_file, GitignoreBinding};
use crate::pathstr::{is_abs_path, is_path_prefix, str_eq};
use vstd::prelude::*;

verus! {

/// Whether the sequence holds `q`.
pub open spec fn seq_has(s: Seq<Seq<char>>, q: Seq<char>) -> bool {
    exists|i: int| 0 <= i < s.len() && s[i] == q
}

/// The view of a vector of paths.
pub open spec fn paths_view(v: Seq<String>) -> Seq<Seq<char>> {
    v.map(|i: int, s: String| s@)
}

/// `s` with every later duplicate dropped: the first occurrence of each
/// path survives, in order.
pub open spec fn spec_dedup(s: Seq<Seq<char>>) -> Seq<Seq<char>>
    decreases s.len(),
{
    if s.len() == 0 {
        Seq::empty()
    } else {
        let rest = spec_dedup(s.drop_last());
        if seq_has(s.drop_last(), s[s.len() - 1]) {
            rest
        } else {
            rest.push(s[s.len() - 1])
        }
    }
}

/// Which paths survive the gitignore filter: a path is dropped exactly
/// when it lies inside the book root and its verdict says ignored.
pub open spec fn spec_filter_kept(
    paths: Seq<Seq<char>>,
    verdicts: Seq<bool>,
    root: Seq<char>,
) -> Seq<Seq<char>>
    decreases paths.len(),
{
    if paths.len() == 0 {
        Seq::empty()
    } else {
        let rest = spec_filter_kept(paths.drop_last(), verdicts.drop_last(), root);
        if is_path_prefix(root, paths[paths.len() - 1]) && verdicts[paths.len() - 1] {
            rest
        } else {
            rest.push(paths[paths.len() - 1])
        }
    }
}

/// Drops every later duplicate from a batch of paths.
pub fn dedup_paths(paths: &Vec<String>) -> (r: Vec<String>)
    ensures
        paths_view(r@) == spec_dedup(paths_view(paths@)),
{
    let ghost full = paths_view(paths@);
    let n = paths.len();
    let mut out: Vec<String> = Vec::new();
    let mut i: usize = 0;
    proof {
        assert(full.subrange(0, 0) =~= Seq::<Seq<char>>::empty());
        assert(paths_view(out@) =~= Seq::<Seq<char>>::empty());
        assert(full.subrange(0, n as int) =~= full);
    }
    while i < n
        invariant
            i <= n,
            n == paths@.len(),
            full == paths_view(paths@),
            paths_view(out@) == spec_dedup(full.subrange(0, i as int)),
        decreases n - i,
    {
        proof {
            assert(full.subrange(0, i as int + 1).drop_last() =~= full.subrange(0, i as int));
            assert(full.subrange(0, i as int + 1)[i as int] == full[i as int]);
            assert(full[i as int] == paths@[i as int]@);
        }
        let mut seen = false;
        let mut j: usize = 0;
        proof {
            assert(full.subrange(0, 0) =~= Seq::<Seq<char>>::empty());
        }
        while j < i
            invariant
                j <= i,
                i < n,
                n == paths@.len(),
                full == paths_view(paths@),
                seen == seq_has(full.subrange(0, j as int), full[i as int]),
            decreases i - j,
        {
            proof {
                assert(full.subrange(0, j as int + 1).drop_last() =~= full.subrange(0, j as int));
                assert(full.subrange(0, j as int + 1)[j as int] == full[j as int]);
                assert(full[j as int] == paths@[j as int]@);
            }
            if str_eq(paths[j].as_str(), paths[i].as_str()) {
                seen = true;
                proof {
                    assert(seq_has(full.subrange(0, j as int + 1), full[i as int])) by {
                        assert(full.subrange(0, j as int + 1)[j as int] == full[i as int]);
                    }
                }
            } else {
                proof {
                    assert(seq_has(full.subrange(0, j as int + 1), full[i as int]) == seq_has(
                        full.subrange(0, j as int),
                        full[i as int],
                    )) by {
                        let sub = full.subrange(0, j as int + 1);
                        if seq_has(sub, full[i as int]) {
                            let k = choose|k: int| 0 <= k < sub.len() && sub[k] == full[i as int];
                            if k < j as int {
                                assert(full.subrange(0, j as int)[k] == full[i as int]);
                            }
                        }
                        if seq_has(full.subrange(0, j as int), full[i as int]) {
                            let k = choose|k: int|
                                0 <= k < full.subrange(0, j as int).len() && full.subrange(
                                    0,
                                    j as int,
                                )[k] == full[i as int];
                            assert(sub[k] == full[i as int]);
                        }
                    }
                }
            }
            j += 1;
        }
        if !seen {
            out.push(paths[i].clone());
        }
        proof {
            assert(paths_view(out@) =~= spec_dedup(full.subrange(0, i as int + 1)));
        }
        i += 1;
    }
    out
}

/// Whether two path vectors hold the same paths in the same order.
pub fn vecs_str_eq(a: &Vec<String>, b: &Vec<String>) -> (r: bool)
    ensures
        r == (paths_view(a@) == paths_view(b@)),
{
    let n = a.len();
    if n != b.len() {
        proof {
            assert(paths_view(a@).len() != paths_view(b@).len());
        }
        return false;
    }
    let mut i: usize = 0;
    while i < n
        invariant
            i <= n,
            n == a@.len(),
            n == b@.len(),
            forall|j: int| 0 <= j < i ==> a@[j]@ == b@[j]@,
        decreases n - i,
    {
        if !str_eq(a[i].as_str(), b[i].as_str()) {
            proof {
                assert(paths_view(a@)[i as int] == a@[i as int]@);
                assert(paths_view(b@)[i as int] == b@[i as int]@);
            }
            return false;
        }
        i += 1;
    }
    proof {
        assert(paths_view(a@) =~= paths_view(b@));
    }
    true
}

/// Consults the gitignore once per path. Nothing is assumed about the
/// verdicts beyond their number: the filter is verified for every
/// outcome.
pub fn ignore_verdicts(binding: &GitignoreBinding, paths: &Vec<String>) -> (r: Vec<bool>)
    requires
        forall|i: int| 0 <= i < paths@.len() ==> is_abs_path(paths@[i]@),
    ensures
        r@.len() == paths@.len(),
{
    let n = paths.len();
    let mut out: Vec<bool> = Vec::new();
    let mut i: usize = 0;
    while i < n
        invariant
            i <= n,
            n == paths@.len(),
            out@.len() == i,
            forall|k: int| 0 <= k < paths@.len() ==> is_abs_path(paths@[k]@),
        decreases n - i,
    {
        let v = is_ignored_file(binding, paths[i].as_str());
        out.push(v);
        i += 1;
    }
    out
}

/// Keeps exactly the paths that are outside the book root or that the
/// verdicts leave alone.
pub fn filter_by_verdicts(book_root: &str, paths: &Vec<String>, verdicts: &Vec<bool>) -> (r: Vec<
    String,
>)
    requires
        paths@.len() == verdicts@.len(),
    ensures
        paths_view(r@) == spec_filter_kept(paths_view(paths@), verdicts@, book_root@),
{
    let ghost full = paths_view(paths@);
    let n = paths.len();
    let mut out: Vec<String> = Vec::new();
    let mut i: usize = 0;
    proof {
        assert(full.subrange(0, 0) =~= Seq::<Seq<char>>::empty());
        assert(verdicts@.subrange(0, 0) =~= Seq::<bool>::empty());
        assert(paths_view(out@) =~= Seq::<Seq<char>>::empty());
        assert(full.subrange(0, n as int) =~= full);
        assert(verdicts@.subrange(0, n as int) =~= verdicts@);
    }
    while i < n
        invariant
            i <= n,
            n == paths@.len(),
            n == verdicts@.len(),
            full == paths_view(paths@),
            paths_view(out@) == spec_filter_kept(
                full.subrange(0, i as int),
                verdicts@.subrange(0, i as int),
                book_root@,
            ),
        decreases n - i,
    {
        proof {
            assert(full.subrange(0, i as int + 1).drop_last() =~= full.subrange(0, i as int));
            assert(verdicts@.subrange(0, i as int + 1).drop_last() =~= verdicts@.subrange(
                0,
                i as int,
            ));
            assert(full.subrange(0, i as int + 1)[i as int] == full[i as int]);
            assert(verdicts@.subrange(0, i as int + 1)[i as int] == verdicts@[i as int]);
            assert(full[i as int] == paths@[i as int]@);
        }
        let inside = crate::pathstr::path_starts_with(paths[i].as_str(), book_root);
        if !(inside && verdicts[i]) {
            out.push(paths[i].clone());
        }
        proof {
            assert(paths_view(out@) =~= spec_filter_kept(
                full.subrange(0, i as int + 1),
                verdicts@.subrange(0, i as int + 1),
                book_root@,
            ));
        }
        i += 1;
    }
    out
}

/// One debounced batch, as the rebuilder receives it: deduplicated, and
/// with every path the active gitignore ignores dropped.
pub fn recv_changed_paths(
    book_root: &str,
    maybe_gitignore: &Option<GitignoreBinding>,
    paths: &Vec<String>,
) -> (r: Vec<String>)
    requires
        forall|i: int| 0 <= i < paths@.len() ==> is_abs_path(paths@[i]@),
    ensures
        match maybe_gitignore {
            Some(_) => exists|vs: Seq<bool>|
                vs.len() == spec_dedup(paths_view(paths@)).len() && paths_view(r@)
                    == spec_filter_kept(spec_dedup(paths_view(paths@)), vs, book_root@),
            None => paths_view(r@) == spec_dedup(paths_view(paths@)),
        },
{
    let deduped = dedup_paths(paths);
    proof {
        lemma_dedup_elements(paths_view(paths@));
        assert forall|i: int| 0 <= i < deduped@.len() implies is_abs_path(deduped@[i]@) by {
            assert(paths_view(deduped@)[i] == deduped@[i]@);
            assert(seq_has(paths_view(paths@), deduped@[i]@));
            let k = choose|k: int|
                0 <= k < paths_view(paths@).len() && paths_view(paths@)[k] == deduped@[i]@;
            assert(paths@[k]@ == deduped@[i]@);
        }
    }
    match maybe_gitignore {
        Some(binding) => {
            let verdicts = ignore_verdicts(binding, &deduped);
            let r = filter_by_verdicts(book_root, &deduped, &verdicts);
            proof {
                let vs = verdicts@;
                assert(vs.len() == spec_dedup(paths_view(paths@)).len() && paths_view(r@)
                    == spec_filter_kept(spec_dedup(paths_view(paths@)), vs, book_root@));
            }
            r
        },
        None => deduped,
    }
}

/// Every path a deduplication emits came from its input.
proof fn lemma_dedup_elements(s: Seq<Seq<char>>)
    ensures
        forall|i: int|
            0 <= i < spec_dedup(s).len() ==> #[trigger] seq_has(s, spec_dedup(s)[i]),
    decreases s.len(),
{
    if s.len() == 0 {
    } else {
        lemma_dedup_elements(s.drop_last());
        assert forall|i: int|
            0 <= i < spec_dedup(s).len() implies #[trigger] seq_has(s, spec_dedup(s)[i]) by {
            let d = spec_dedup(s);
            let dl = spec_dedup(s.drop_last());
            if i < dl.len() {
                assert(dl[i] == d[i]);
                assert(seq_has(s.drop_last(), dl[i]));
                let k = choose|k: int|
                    0 <= k < s.drop_last().len() && s.drop_last()[k] == dl[i];
                assert(s[k] == dl[i]);
            } else {
                assert(d[i] == s[s.len() - 1]);
            }
        }
    }
}

/// Ignore correctness: a path inside the book root whose verdict says
/// ignored never reaches the rebuilder, provided the batch holds no
/// duplicate paths.
pub proof fn lemma_ignore_correctness(
    paths: Seq<Seq<char>>,
    verdicts: Seq<bool>,
    root: Seq<char>,
    i: int,
)
    requires
        paths.len() == verdicts.len(),
        forall|a: int, b: int| 0 <= a < b < paths.len() ==> paths[a] != paths[b],
        0 <= i < paths.len(),
        is_path_prefix(root, paths[i]),
        verdicts[i],
    ensures
        !seq_has(spec_filter_kept(paths, verdicts, root), paths[i]),
    decreases paths.len(),
{
    if paths.len() == 0 {
    } else {
        let last = paths.len() - 1;
        let rest = spec_filter_kept(paths.drop_last(), verdicts.drop_last(), root);
        if i == last {
            if is_path_prefix(root, paths[last]) && verdicts[last] {
                assert(!seq_has(rest, paths[i])) by {
                    lemma_filter_kept_elements(paths.drop_last(), verdicts.drop_last(), root);
                    if seq_has(rest, paths[i]) {
                        let k = choose|k: int| 0 <= k < rest.len() && rest[k] == paths[i];
                        assert(seq_has(paths.drop_last(), rest[k]));
                        let a = choose|a: int|
                            0 <= a < paths.drop_last().len() && paths.drop_last()[a] == rest[k];
                        assert(paths[a] == paths[i]);
                    }
                }
            }
        } else {
            assert forall|a: int, b: int|
                0 <= a < b < paths.drop_last().len() implies paths.drop_last()[a] != paths.drop_last(
            )[b] by {
                assert(paths.drop_last()[a] == paths[a]);
                assert(paths.drop_last()[b] == paths[b]);
            }
            assert(paths.drop_last()[i] == paths[i]);
            assert(verdicts.drop_last()[i] == verdicts[i]);
            lemma_ignore_correctness(paths.drop_last(), verdicts.drop_last(), root, i);
            if !(is_path_prefix(root, paths[last]) && verdicts[last]) {
                let d = spec_filter_kept(paths, verdicts, root);
                if seq_has(d, paths[i]) {
                    let k = choose|k: int| 0 <= k < d.len() && d[k] == paths[i];
                    if k < rest.len() {
                        assert(seq_has(rest, paths[i]));
                    } else {
                        assert(d[k] == paths[last]);
                        assert(paths[i] != paths[last]);
                    }
                }
            }
        }
    }
}

/// Every path the filter keeps came from its input.
proof fn lemma_filter_kept_elements(paths: Seq<Seq<char>>, verdicts: Seq<bool>, root: Seq<char>)
    ensures
        forall|i: int|
            0 <= i < spec_filter_kept(paths, verdicts, root).len() ==> #[trigger] seq_has(
                paths,
                spec_filter_kept(paths, verdicts, root)[i],
            ),
    decreases paths.len(),
{
    if paths.len() == 0 {
    } else {
        lemma_filter_kept_elements(paths.drop_last(), verdicts.drop_last(), root);
        assert forall|i: int|
            0 <= i < spec_filter_kept(paths, verdicts, root).len() implies #[trigger] seq_has(
            paths,
            spec_filter_kept(paths, verdicts, root)[i],
        ) by {
            let d = spec_filter_kept(paths, verdicts, root);
            let rest = spec_filter_kept(paths.drop_last(), verdicts.drop_last(), root);
            if i < rest.len() {
                assert(d[i] == rest[i]);
                assert(seq_has(paths.drop_last(), rest[i]));
                let k = choose|k: int|
                    0 <= k < paths.drop_last().len() && paths.drop_last()[k] == rest[i];
                assert(paths[k] == rest[i]);
            } else {
                assert(d[i] == paths[paths.len() - 1]);
            }
        }
    }
}

} // verus!
