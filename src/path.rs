//! Lexical path handling inside an archive: normalization for lookups and
//! single-hop resolution of symlink targets.

use vstd::prelude::*;
use vstd::string::*;
use crate::text::{chars_of, copy_chars, join_chars, join_with, split_chars, split_on, string_of, views};

verus! {

/// `p` without any leading `/`.
pub open spec fn strip_slashes(p: Seq<char>) -> Seq<char>
    decreases p.len(),
{
    if p.len() > 0 && p[0] == '/' {
        strip_slashes(p.drop_first())
    } else {
        p
    }
}

/// `p` without one leading `./`, if it has one.
pub open spec fn strip_dot_slash(p: Seq<char>) -> Seq<char> {
    if p.len() >= 2 && p[0] == '.' && p[1] == '/' {
        p.subrange(2, p.len() as int)
    } else {
        p
    }
}

/// The key under which a path is stored and looked up: one optional
/// leading `./` removed, then every leading `/`.
pub open spec fn normalize(p: Seq<char>) -> Seq<char> {
    strip_slashes(strip_dot_slash(p))
}

/// Whether `p` begins with `./`.
pub open spec fn starts_dot_slash(p: Seq<char>) -> bool {
    p.len() >= 2 && p[0] == '.' && p[1] == '/'
}

proof fn lemma_strip_slashes_head(p: Seq<char>)
    ensures
        strip_slashes(p).len() > 0 ==> strip_slashes(p)[0] != '/',
    decreases p.len(),
{
    if p.len() > 0 && p[0] == '/' {
        lemma_strip_slashes_head(p.drop_first());
    }
}

/// Normalizing twice gives the same key as normalizing once, for every path
/// whose key does not itself begin with `./` (a path such as `././a`, whose
/// key `./a` loses its `./` on the second pass, is the exception).
pub proof fn lemma_normalize_idempotent(p: Seq<char>)
    requires
        !starts_dot_slash(normalize(p)),
    ensures
        normalize(normalize(p)) == normalize(p),
{
    lemma_strip_slashes_head(strip_dot_slash(p));
}

/// Index of the first character of `s` from `i` on that is not a `/`.
fn skip_slashes(s: &str, i: usize) -> (j: usize)
    requires
        i <= s@.len(),
    ensures
        i <= j <= s@.len(),
        strip_slashes(s@.subrange(i as int, s@.len() as int)) == s@.subrange(
            j as int,
            s@.len() as int,
        ),
{
    let n = s.unicode_len();
    let mut j = i;
    while j < n && s.get_char(j) == '/'
        invariant
            n == s@.len(),
            i <= j <= n,
            strip_slashes(s@.subrange(i as int, n as int)) == strip_slashes(
                s@.subrange(j as int, n as int),
            ),
        decreases n - j,
    {
        assert(s@.subrange(j as int, n as int).drop_first() =~= s@.subrange(j + 1, n as int));
        j = j + 1;
    }
    j
}

/// The lookup key of `path` (see [`normalize`]).
pub(crate) fn normalize_path(path: &str) -> (r: String)
    ensures
        r@ == normalize(path@),
{
    let n = path.unicode_len();
    let mut i: usize = 0;
    if n >= 2 && path.get_char(0) == '.' && path.get_char(1) == '/' {
        i = 2;
    }
    assert(strip_dot_slash(path@) =~= path@.subrange(i as int, n as int));
    let j = skip_slashes(path, i);
    path.substring_char(j, n).to_owned()
}

/// Everything in `p` before its last `/`; empty where `p` has none.
pub open spec fn dir_of(p: Seq<char>) -> Seq<char>
    decreases p.len(),
{
    if p.len() == 0 {
        p
    } else if p.last() == '/' {
        p.drop_last()
    } else {
        dir_of(p.drop_last())
    }
}

/// The components that resolution starts from: none for an empty directory.
pub open spec fn base_components(dir: Seq<char>) -> Seq<Seq<char>> {
    if dir.len() == 0 {
        Seq::empty()
    } else {
        split_on(dir, '/')
    }
}

/// One component of a relative target applied to the stack of components:
/// `.` and the empty component change nothing, `..` removes the last one
/// (nothing happens on an empty stack), any other is added.
pub open spec fn step(st: Seq<Seq<char>>, c: Seq<char>) -> Seq<Seq<char>> {
    if c.len() == 0 || c == seq!['.'] {
        st
    } else if c == seq!['.', '.'] {
        if st.len() > 0 {
            st.drop_last()
        } else {
            st
        }
    } else {
        st.push(c)
    }
}

/// The components `comps` applied to `st` from left to right.
pub open spec fn walk(st: Seq<Seq<char>>, comps: Seq<Seq<char>>) -> Seq<Seq<char>>
    decreases comps.len(),
{
    if comps.len() == 0 {
        st
    } else {
        step(walk(st, comps.drop_last()), comps.last())
    }
}

/// The archive path that a symlink at `link` with target `target` names.
/// An absolute target is taken from the archive root, without its one
/// leading slash; a relative one is applied, component by component, to the
/// directory that holds the link.
pub open spec fn resolve(link: Seq<char>, target: Seq<char>) -> Seq<char> {
    if target.len() > 0 && target[0] == '/' {
        target.drop_first()
    } else {
        join_with(walk(base_components(dir_of(link)), split_on(target, '/')), '/')
    }
}

/// Index just past the last `/` of `s`, or 0 where it has none; the
/// directory part is then `s[0..k - 1]`.
fn last_slash_end(s: &Vec<char>) -> (k: usize)
    ensures
        k <= s@.len(),
        k == 0 ==> dir_of(s@).len() == 0,
        k > 0 ==> dir_of(s@) == s@.subrange(0, k - 1),
{
    let mut k = s.len();
    assert(s@.subrange(0, k as int) =~= s@);
    while k > 0 && s[k - 1] != '/'
        invariant
            k <= s@.len(),
            dir_of(s@) == dir_of(s@.subrange(0, k as int)),
        decreases k,
    {
        assert(s@.subrange(0, k as int).drop_last() =~= s@.subrange(0, k - 1));
        k = k - 1;
    }
    if k > 0 {
        assert(s@.subrange(0, k as int).drop_last() =~= s@.subrange(0, k - 1));
    }
    k
}

/// The archive path named by a symlink at `link_path` whose target is
/// `target` (see [`resolve`]).
pub(crate) fn resolve_target(link_path: &str, target: &str) -> (r: String)
    ensures
        r@ == resolve(link_path@, target@),
{
    let n = target.unicode_len();
    if n > 0 && target.get_char(0) == '/' {
        assert(target@.subrange(1, n as int) =~= target@.drop_first());
        return target.substring_char(1, n).to_owned();
    }
    let link = chars_of(link_path);
    let k = last_slash_end(&link);
    let mut st: Vec<Vec<char>> = if k <= 1 {
        Vec::new()
    } else {
        split_chars(&link, k - 1, '/')
    };
    assert(views(st@) =~= base_components(dir_of(link_path@)));
    let t = chars_of(target);
    let comps = split_chars(&t, t.len(), '/');
    assert(t@.subrange(0, t@.len() as int) =~= t@);
    let ghost base = views(st@);
    let mut i: usize = 0;
    while i < comps.len()
        invariant
            i <= comps.len(),
            views(comps@) == split_on(target@, '/'),
            views(st@) == walk(base, views(comps@).subrange(0, i as int)),
        decreases comps.len() - i,
    {
        let c = &comps[i];
        let ghost cv = views(comps@)[i as int];
        let ghost prev = views(st@);
        assert(views(comps@).subrange(0, i + 1).drop_last() =~= views(comps@).subrange(0, i as int));
        if c.len() == 0 || (c.len() == 1 && c[0] == '.') {
            assert(c.len() == 1 ==> cv =~= seq!['.']);
        } else if c.len() == 2 && c[0] == '.' && c[1] == '.' {
            assert(cv =~= seq!['.', '.']);
            if st.len() > 0 {
                st.pop();
                assert(views(st@) =~= prev.drop_last());
            }
        } else {
            assert(cv != seq!['.']);
            assert(cv != seq!['.', '.']);
            st.push(copy_chars(c));
            assert(views(st@) =~= prev.push(cv));
        }
        i = i + 1;
    }
    assert(views(comps@).subrange(0, i as int) =~= views(comps@));
    string_of(&join_chars(&st, '/'))
}

} // verus!
