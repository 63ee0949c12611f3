//! Paths as plain `/`-separated strings.
//!
//! The engine passes paths around constantly: chapter sources, the summary
//! file, theme directories, relative HTML paths. This module gives them a
//! mathematical model (`Seq<char>`) and verified operations. Paths are
//! expected in normalized form: no trailing separator and no repeated
//! separators; an absolute path starts with `/`.

use vstd::prelude::*;

verus! {

/// An absolute path starts with the separator.
pub open spec fn is_abs_path(p: Seq<char>) -> bool {
    p.len() > 0 && p[0] == '/'
}

/// `pre` names a directory prefix of `p` (or equals it), component-wise:
/// the empty path is a prefix of everything, the root is a prefix of every
/// absolute path, and otherwise the next character of `p` after `pre` must
/// be a separator.
pub open spec fn is_path_prefix(pre: Seq<char>, p: Seq<char>) -> bool {
    ||| pre.len() == 0
    ||| pre == p
    ||| (pre == seq!['/'] && is_abs_path(p))
    ||| (pre.len() < p.len() && p.subrange(0, pre.len() as int) == pre && p[pre.len() as int]
        == '/')
}

/// What remains of `p` after stripping the prefix `pre`;
/// meaningful only when `is_path_prefix(pre, p)` holds.
pub open spec fn path_rest(p: Seq<char>, pre: Seq<char>) -> Seq<char> {
    if pre.len() == 0 {
        p
    } else if pre == p {
        Seq::empty()
    } else if pre == seq!['/'] {
        p.subrange(1, p.len() as int)
    } else {
        p.subrange(pre.len() as int + 1, p.len() as int)
    }
}

/// Joining a base directory and a further (usually relative) path.
pub open spec fn path_join_spec(base: Seq<char>, rel: Seq<char>) -> Seq<char> {
    if base.len() == 0 {
        rel
    } else if base == seq!['/'] {
        base + rel
    } else {
        base + seq!['/'] + rel
    }
}

/// Whether the two strings hold the same characters.
pub fn str_eq(a: &str, b: &str) -> (r: bool)
    ensures
        r == (a@ == b@),
{
    let sa = a.to_owned();
    let sb = b.to_owned();
    sa == sb
}

/// Whether `p` starts with `/`.
pub fn path_is_abs(p: &str) -> (r: bool)
    ensures
        r == is_abs_path(p@),
{
    let n = p.unicode_len();
    n > 0 && p.get_char(0) == '/'
}

/// Component-wise prefix test, as directory containment.
pub fn path_starts_with(p: &str, pre: &str) -> (r: bool)
    ensures
        r == is_path_prefix(pre@, p@),
{
    let np = p.unicode_len();
    let npre = pre.unicode_len();
    if npre == 0 {
        return true;
    }
    if npre > np {
        return false;
    }
    let mut i: usize = 0;
    while i < npre
        invariant
            i <= npre,
            npre <= np,
            np == p@.len(),
            npre == pre@.len(),
            forall|j: int| 0 <= j < i ==> p@[j] == pre@[j],
        decreases npre - i,
    {
        if p.get_char(i) != pre.get_char(i) {
            assert(p@.subrange(0, npre as int)[i as int] != pre@[i as int]);
            return false;
        }
        i += 1;
    }
    assert(p@.subrange(0, npre as int) =~= pre@);
    if npre == np {
        assert(pre@ =~= p@);
        return true;
    }
    if p.get_char(npre) == '/' {
        return true;
    }
    if npre == 1 && pre.get_char(0) == '/' {
        assert(pre@ =~= seq!['/']);
        return true;
    }
    assert(!(pre@ =~= seq!['/'])) by {
        if pre@ == seq!['/'] {
            assert(pre@.len() == 1);
        }
    }
    false
}

/// Strips the directory prefix `pre` from `p`.
/// Returns `None` exactly when `pre` is no prefix of `p`.
pub fn path_strip_prefix(p: &str, pre: &str) -> (r: Option<String>)
    ensures
        match r {
            Some(rest) => is_path_prefix(pre@, p@) && rest@ == path_rest(p@, pre@),
            None => !is_path_prefix(pre@, p@),
        },
{
    if !path_starts_with(p, pre) {
        return None;
    }
    let np = p.unicode_len();
    let npre = pre.unicode_len();
    if npre == 0 {
        return Some(p.to_owned());
    }
    if npre == np {
        assert(pre@ =~= p@);
        return Some(String::new());
    }
    if npre == 1 && pre.get_char(0) == '/' {
        assert(pre@ =~= seq!['/']);
        return Some(p.substring_char(1, np).to_owned());
    }
    assert(!(pre@ =~= seq!['/'])) by {
        if pre@ == seq!['/'] {
            assert(pre@.len() == 1);
        }
    }
    assert(pre@ != p@) by {
        if pre@ == p@ {
            assert(pre@.len() == p@.len());
        }
    }
    Some(p.substring_char(npre + 1, np).to_owned())
}

/// Joins a base directory and a further path with a separator.
pub fn path_join(base: &str, rel: &str) -> (r: String)
    ensures
        r@ == path_join_spec(base@, rel@),
{
    let nb = base.unicode_len();
    if nb == 0 {
        return rel.to_owned();
    }
    let mut s = base.to_owned();
    if !(nb == 1 && base.get_char(0) == '/') {
        assert(!(base@ =~= seq!['/'])) by {
            if base@ == seq!['/'] {
                assert(base@.len() == 1);
            }
        }
        s.append("/");
        proof {
            reveal_strlit("/");
            assert(s@ =~= base@ + seq!['/']);
        }
    } else {
        assert(base@ =~= seq!['/']);
    }
    s.append(rel);
    s
}

/// The characters of the `.html` extension.
pub open spec fn html_ext() -> Seq<char> {
    seq!['.', 'h', 't', 'm', 'l']
}

/// Index of the last separator in `p`, or `-1` when there is none.
pub open spec fn last_slash_idx(p: Seq<char>) -> int
    decreases p.len(),
{
    if p.len() == 0 {
        -1
    } else if p[p.len() - 1] == '/' {
        p.len() - 1
    } else {
        last_slash_idx(p.drop_last())
    }
}

/// Index of the dot starting the extension of `p`'s file name,
/// or `-1` when the file name has no extension. A dot that begins the
/// file name (as in a dotfile) starts no extension.
pub open spec fn ext_dot_idx(p: Seq<char>) -> int
    decreases p.len(),
{
    if p.len() == 0 {
        -1
    } else if p[p.len() - 1] == '/' {
        -1
    } else if p[p.len() - 1] == '.' {
        if p.len() == 1 || p[p.len() - 2] == '/' {
            -1
        } else {
            p.len() - 1
        }
    } else {
        ext_dot_idx(p.drop_last())
    }
}

/// `p` with its extension replaced by (or extended with) `.html`.
pub open spec fn with_html_ext_spec(p: Seq<char>) -> Seq<char> {
    if ext_dot_idx(p) == -1 {
        p + html_ext()
    } else {
        p.subrange(0, ext_dot_idx(p)) + html_ext()
    }
}

/// The parent directory of `p`, if any.
pub open spec fn parent_spec(p: Seq<char>) -> Option<Seq<char>> {
    if p.len() == 0 || p == seq!['/'] {
        Option::None
    } else if last_slash_idx(p) == -1 {
        Option::Some(Seq::empty())
    } else if last_slash_idx(p) == 0 {
        Option::Some(seq!['/'])
    } else {
        Option::Some(p.subrange(0, last_slash_idx(p)))
    }
}

/// `p` with every leading separator removed.
pub open spec fn trim_slashes_spec(p: Seq<char>) -> Seq<char>
    decreases p.len(),
{
    if p.len() > 0 && p[0] == '/' {
        trim_slashes_spec(p.subrange(1, p.len() as int))
    } else {
        p
    }
}

/// Replaces the extension of `p` with `.html`, appending it when the file
/// name has none.
pub fn path_with_html_ext(p: &str) -> (r: String)
    ensures
        r@ == with_html_ext_spec(p@),
{
    let n = p.unicode_len();
    let mut i: usize = n;
    proof {
        assert(p@.subrange(0, n as int) =~= p@);
    }
    while i > 0
        invariant
            i <= n,
            n == p@.len(),
            ext_dot_idx(p@) == ext_dot_idx(p@.subrange(0, i as int)),
        decreases i,
    {
        let c = p.get_char(i - 1);
        proof {
            assert(p@.subrange(0, i as int).drop_last() =~= p@.subrange(0, i as int - 1));
            assert(p@.subrange(0, i as int)[i as int - 1] == p@[i as int - 1]);
            if i >= 2 {
                assert(p@.subrange(0, i as int)[i as int - 2] == p@[i as int - 2]);
            }
        }
        if c == '/' {
            assert(ext_dot_idx(p@) == -1);
            let mut s = p.to_owned();
            s.append(".html");
            proof {
                reveal_strlit(".html");
                assert(".html"@ =~= html_ext());
            }
            return s;
        }
        if c == '.' {
            if i == 1 || p.get_char(i - 2) == '/' {
                assert(ext_dot_idx(p@) == -1);
                let mut s = p.to_owned();
                s.append(".html");
                proof {
                    reveal_strlit(".html");
                    assert(".html"@ =~= html_ext());
                }
                return s;
            }
            assert(ext_dot_idx(p@) == i - 1);
            let mut s = p.substring_char(0, i - 1).to_owned();
            s.append(".html");
            proof {
                reveal_strlit(".html");
                assert(".html"@ =~= html_ext());
            }
            return s;
        }
        i -= 1;
    }
    proof {
        assert(p@.subrange(0, 0) =~= Seq::<char>::empty());
    }
    assert(ext_dot_idx(p@) == -1);
    let mut s = p.to_owned();
    s.append(".html");
    proof {
        reveal_strlit(".html");
        assert(".html"@ =~= html_ext());
    }
    s
}

/// The parent directory of `p`: everything before the last separator.
pub fn path_parent(p: &str) -> (r: Option<String>)
    ensures
        match r {
            Some(q) => parent_spec(p@) == Option::Some(q@),
            None => parent_spec(p@) == Option::<Seq<char>>::None,
        },
{
    let n = p.unicode_len();
    if n == 0 {
        return None;
    }
    if n == 1 && p.get_char(0) == '/' {
        assert(p@ =~= seq!['/']);
        return None;
    }
    assert(p@ != seq!['/']) by {
        if p@ == seq!['/'] {
            assert(p@.len() == 1);
            assert(p@[0] == '/');
        }
    }
    let mut i: usize = n;
    proof {
        assert(p@.subrange(0, n as int) =~= p@);
    }
    while i > 0
        invariant
            i <= n,
            n == p@.len(),
            n > 0,
            p@ != seq!['/'],
            last_slash_idx(p@) == last_slash_idx(p@.subrange(0, i as int)),
        decreases i,
    {
        let c = p.get_char(i - 1);
        proof {
            assert(p@.subrange(0, i as int).drop_last() =~= p@.subrange(0, i as int - 1));
            assert(p@.subrange(0, i as int)[i as int - 1] == p@[i as int - 1]);
        }
        if c == '/' {
            assert(last_slash_idx(p@) == i - 1);
            if i == 1 {
                let s = "/".to_owned();
                proof {
                    reveal_strlit("/");
                    assert(s@ =~= seq!['/']);
                }
                return Some(s);
            }
            return Some(p.substring_char(0, i - 1).to_owned());
        }
        i -= 1;
    }
    proof {
        assert(p@.subrange(0, 0) =~= Seq::<char>::empty());
    }
    assert(last_slash_idx(p@) == -1);
    Some(String::new())
}

/// Whether the path ends in the Markdown extension.
pub open spec fn ends_with_md_spec(p: Seq<char>) -> bool {
    p.len() >= 3 && p[p.len() - 3] == '.' && p[p.len() - 2] == 'm' && p[p.len() - 1] == 'd'
}

/// Whether `p` names a Markdown file, by its `.md` suffix.
pub fn path_ends_with_md(p: &str) -> (r: bool)
    ensures
        r == ends_with_md_spec(p@),
{
    let n = p.unicode_len();
    n >= 3 && p.get_char(n - 3) == '.' && p.get_char(n - 2) == 'm' && p.get_char(n - 1) == 'd'
}

/// Removes every leading separator, as a request path is normalized
/// before it is looked up.
pub fn path_trim_leading_slashes(p: &str) -> (r: String)
    ensures
        r@ == trim_slashes_spec(p@),
{
    let n = p.unicode_len();
    let mut i: usize = 0;
    proof {
        assert(p@.subrange(0, n as int) =~= p@);
    }
    while i < n
        invariant
            i <= n,
            n == p@.len(),
            trim_slashes_spec(p@) == trim_slashes_spec(p@.subrange(i as int, n as int)),
        decreases n - i,
    {
        proof {
            assert(p@.subrange(i as int, n as int)[0] == p@[i as int]);
            assert(p@.subrange(i as int, n as int).subrange(
                1,
                p@.subrange(i as int, n as int).len() as int,
            ) =~= p@.subrange(i as int + 1, n as int));
        }
        if p.get_char(i) != '/' {
            assert(trim_slashes_spec(p@) == p@.subrange(i as int, n as int));
            return p.substring_char(i, n).to_owned();
        }
        i += 1;
    }
    proof {
        assert(p@.subrange(n as int, n as int) =~= Seq::<char>::empty());
        assert(trim_slashes_spec(p@) == p@.subrange(i as int, n as int));
    }
    p.substring_char(i, n).to_owned()
}

/// Whether some element of `v` holds the same characters as `s`.
pub fn vec_contains_str(v: &Vec<String>, s: &str) -> (r: bool)
    ensures
        r == (exists|i: int| 0 <= i < v@.len() && v@[i]@ == s@),
{
    let n = v.len();
    let mut i: usize = 0;
    while i < n
        invariant
            i <= n,
            n == v@.len(),
            forall|j: int| 0 <= j < i ==> v@[j]@ != s@,
        decreases n - i,
    {
        if str_eq(v[i].as_str(), s) {
            return true;
        }
        i += 1;
    }
    false
}

} // verus!
