//! The crate's model of filesystem paths.
//!
//! A path is a plain string whose components are separated by `/`.  A
//! scanned file's path is always a strict descendant of the scan's base
//! directory; everything the synchronization logic reads off a path
//! (relative location, file name, extension, parent directory) is defined
//! here over sequences of characters.

use vstd::prelude::*;

verus! {

/// A scanned path was not a descendant of its claimed base directory.
/// This signals a broken scanner contract, not a recoverable condition.
#[derive(Clone, Copy, Debug, PartialEq, Eq, Structural)]
pub struct PathError;

/// `path` lies strictly below the directory `base`: it is `base`, then a
/// separator, then a non-empty remainder.
pub open spec fn path_descends(path: Seq<char>, base: Seq<char>) -> bool {
    &&& path.len() > base.len() + 1
    &&& path.take(base.len() as int) == base
    &&& path[base.len() as int] == '/'
}

/// The location of `path` relative to `base`: what is left after the base
/// and the separator.
pub open spec fn rel_of(path: Seq<char>, base: Seq<char>) -> Seq<char> {
    path.skip(base.len() as int + 1)
}

/// Compute the location of `path` relative to `base`.
///
/// Succeeds exactly when `path` strictly descends from `base`.
pub fn relative_to(path: &str, base: &str) -> (r: Result<String, PathError>)
    ensures
        path_descends(path@, base@) ==> (r matches Ok(s) && s@ == rel_of(path@, base@)),
        !path_descends(path@, base@) ==> r is Err,
{
    let pl = path.unicode_len();
    let bl = base.unicode_len();
    if pl <= bl || pl - bl < 2 {
        return Err(PathError);
    }
    if path.get_char(bl) != '/' {
        return Err(PathError);
    }
    let mut i: usize = 0;
    while i < bl
        invariant
            bl == base@.len(),
            bl < pl == path@.len(),
            i <= bl,
            forall|k: int| 0 <= k < i ==> path@[k] == base@[k],
        decreases bl - i,
    {
        if path.get_char(i) != base.get_char(i) {
            assert(path@.take(bl as int)[i as int] != base@[i as int]);
            return Err(PathError);
        }
        i = i + 1;
    }
    assert(path@.take(bl as int) =~= base@);
    let rel = path.substring_char(bl + 1, pl);
    assert(rel@ =~= rel_of(path@, base@));
    Ok(rel.to_owned())
}

/// Whether `path` strictly descends from `base`.
pub fn descends(path: &str, base: &str) -> (r: bool)
    ensures
        r == path_descends(path@, base@),
{
    match relative_to(path, base) {
        Ok(_) => true,
        Err(_) => false,
    }
}

/// Join a directory and a relative location with a separator.
pub fn path_join(base: &str, rel: &str) -> (r: String)
    ensures
        r@ == base@ + seq!['/'] + rel@,
{
    proof {
        reveal_strlit("/");
    }
    let mut r = base.to_owned();
    r.append("/");
    r.append(rel);
    assert(r@ =~= base@ + seq!['/'] + rel@);
    r
}

/// The suffix of `s` after the last occurrence of `c`; all of `s` when `c`
/// does not occur.
pub open spec fn after_last(s: Seq<char>, c: char) -> Seq<char>
    decreases s.len(),
{
    if !s.contains(c) {
        s
    } else {
        after_last(s.drop_first(), c)
    }
}

pub proof fn lemma_after_last_absent(s: Seq<char>, c: char)
    requires
        !s.contains(c),
    ensures
        after_last(s, c) == s,
{
}

/// When the last occurrence of `c` in `s` is at `j`, the suffix after it is
/// everything past position `j`.
pub proof fn lemma_after_last_at(s: Seq<char>, c: char, j: int)
    requires
        0 <= j < s.len(),
        s[j] == c,
        forall|k: int| j < k < s.len() ==> s[k] != c,
    ensures
        after_last(s, c) == s.skip(j + 1),
    decreases s.len(),
{
    assert(s.contains(c));
    if j == 0 {
        assert(!s.drop_first().contains(c)) by {
            assert(forall|k: int|
                0 <= k < s.drop_first().len() ==> s.drop_first()[k] == s[k + 1]);
        }
        assert(after_last(s.drop_first(), c) == s.drop_first());
        assert(s.drop_first() =~= s.skip(1));
    } else {
        let t = s.drop_first();
        assert(t[j - 1] == c);
        assert(forall|k: int| j - 1 < k < t.len() ==> t[k] == s[k + 1] && s[k + 1] != c);
        lemma_after_last_at(t, c, j - 1);
        assert(t.skip(j) =~= s.skip(j + 1));
    }
}

/// The index of the last occurrence of `c` in `s`, when there is one.
pub fn find_last(s: &str, c: char) -> (r: Option<usize>)
    ensures
        r matches Some(j) ==> (j < s@.len() && s@[j as int] == c && forall|k: int|
            j < k < s@.len() ==> s@[k] != c),
        r is None ==> !s@.contains(c),
{
    let n = s.unicode_len();
    let mut i: usize = n;
    while i > 0
        invariant
            n == s@.len(),
            i <= n,
            forall|k: int| i <= k < n ==> s@[k] != c,
        decreases i,
    {
        i = i - 1;
        if s.get_char(i) == c {
            return Some(i);
        }
    }
    assert(forall|k: int| 0 <= k < s@.len() ==> s@[k] != c);
    None
}

/// The parent directory of a path that contains a separator: everything
/// before the last separator.
pub open spec fn parent_of(p: Seq<char>) -> Seq<char> {
    p.take(p.len() - after_last(p, '/').len() - 1)
}

/// Compute the parent directory of `path`.
///
/// Succeeds exactly when `path` contains a separator.
pub fn parent_dir(path: &str) -> (r: Option<String>)
    ensures
        path@.contains('/') ==> (r matches Some(d) && d@ == parent_of(path@)),
        !path@.contains('/') ==> r is None,
{
    match find_last(path, '/') {
        Some(j) => {
            proof {
                lemma_after_last_at(path@, '/', j as int);
            }
            let d = path.substring_char(0, j);
            assert(d@ =~= parent_of(path@));
            Some(d.to_owned())
        },
        None => None,
    }
}

} // verus!
