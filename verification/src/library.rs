//! Library entries and library sets.
//!
//! A library entry pairs a scanned file's path with its normalized identity
//! and the side it was scanned from.  A library set is the de-duplicated
//! collection of entries built from one scan; identities are unique within
//! a set, and when two scanned paths collide on one identity the first-seen
//! path wins.

use vstd::prelude::*;
use crate::casefold::{fold_char, fold_of, folded, lemma_fold_of_push, lemma_folded_fixed};
use crate::paths::{path_descends, rel_of, relative_to};
use crate::strutil::push_chars;

verus! {

/// Which side an entry was scanned from: the local collection or the
/// removable device's media store.
#[derive(Clone, Copy, Eq, Debug, PartialEq, Structural)]
pub enum LibrarySource {
    Local,
    DMS,
}

/// One entry of a library set.
pub struct LibraryFile {
    pub id: String,
    pub path: String,
    pub base: String,
    pub source: LibrarySource,
}

/// The mathematical value of a library entry.
pub struct LibraryFileView {
    pub id: Seq<char>,
    pub path: Seq<char>,
    pub base: Seq<char>,
    pub source: LibrarySource,
}

impl View for LibraryFile {
    type V = LibraryFileView;

    open spec fn view(&self) -> LibraryFileView {
        LibraryFileView {
            id: self.id@,
            path: self.path@,
            base: self.base@,
            source: self.source,
        }
    }
}

/// The identity-relevant rewriting of one relative-path character: the tab
/// (illegal on the device's filesystem) is dropped, the colon is replaced
/// by a visible hyphen so that distinct names are not collapsed, everything
/// else stays.
pub open spec fn library_scrub(s: Seq<char>) -> Seq<char>
    decreases s.len(),
{
    if s.len() == 0 {
        Seq::empty()
    } else {
        let rest = library_scrub(s.drop_last());
        if s.last() == '\t' {
            rest
        } else if s.last() == ':' {
            rest.push('-')
        } else {
            rest.push(s.last())
        }
    }
}

/// The identity of a file at `path` scanned under `base`: its relative
/// location, scrubbed and case folded.
pub open spec fn library_id_of(path: Seq<char>, base: Seq<char>) -> Seq<char> {
    fold_of(library_scrub(rel_of(path, base)))
}

/// The entry that scanning `path` under `base` on side `source` produces.
pub open spec fn entry_view(path: Seq<char>, base: Seq<char>, source: LibrarySource) -> LibraryFileView {
    LibraryFileView {
        id: library_id_of(path, base),
        path: path,
        base: base,
        source: source,
    }
}

/// The views of a sequence of entries.
pub open spec fn views_of(s: Seq<LibraryFile>) -> Seq<LibraryFileView> {
    s.map_values(|e: LibraryFile| e@)
}

/// Some entry of `s` carries the identity `id`.
pub open spec fn has_id(s: Seq<LibraryFileView>, id: Seq<char>) -> bool {
    exists|i: int| 0 <= i < s.len() && s[i].id == id
}

/// No two entries of `s` share an identity.
pub open spec fn unique_ids(s: Seq<LibraryFileView>) -> bool {
    forall|i: int, j: int| 0 <= i < j < s.len() ==> s[i].id != s[j].id
}

/// The library set that a scan yields: one entry per path, in scan order,
/// de-duplicated by identity with the first-seen path winning.
pub open spec fn spec_scan(paths: Seq<Seq<char>>, base: Seq<char>, source: LibrarySource) -> Seq<
    LibraryFileView,
>
    decreases paths.len(),
{
    if paths.len() == 0 {
        Seq::empty()
    } else {
        let prev = spec_scan(paths.drop_last(), base, source);
        let v = entry_view(paths.last(), base, source);
        if has_id(prev, v.id) {
            prev
        } else {
            prev.push(v)
        }
    }
}

impl LibraryFile {
    /// An entry's path must lie strictly below its base directory, and its
    /// stored identity must be the one its path and base yield.
    pub open spec fn wf(&self) -> bool {
        &&& path_descends(self.path@, self.base@)
        &&& self.id@ == library_id_of(self.path@, self.base@)
    }

    pub fn new(path: &str, base: &str, source: LibrarySource) -> (r: LibraryFile)
        requires
            path_descends(path@, base@),
        ensures
            r@ == entry_view(path@, base@, source),
            r.wf(),
            folded(r.id@),
    {
        let r = LibraryFile {
            id: LibraryFile::gen_id(path, base),
            path: path.to_owned(),
            base: base.to_owned(),
            source: source,
        };
        r
    }

    /// Generate the normalized identity for the file at `path` under
    /// `base`.  The result is folded, so another round of case folding
    /// leaves it unchanged.
    pub fn gen_id(path: &str, base: &str) -> (r: String)
        requires
            path_descends(path@, base@),
        ensures
            r@ == library_id_of(path@, base@),
            folded(r@),
            fold_of(r@) == r@,
    {
        let rel = match relative_to(path, base) {
            Ok(s) => s,
            Err(_) => {
                proof {
                    assert(false);
                }
                String::new()
            },
        };
        let n = rel.as_str().unicode_len();
        let mut out = String::new();
        let mut i: usize = 0;
        while i < n
            invariant
                n == rel@.len(),
                i <= n,
                out@ == fold_of(library_scrub(rel@.take(i as int))),
                folded(out@),
            decreases n - i,
        {
            let c = rel.as_str().get_char(i);
            proof {
                assert(rel@.take(i + 1 as int).drop_last() =~= rel@.take(i as int));
                assert(rel@.take(i + 1 as int).last() == c);
            }
            if c == '\t' {
            } else if c == ':' {
                let f = fold_char('-');
                proof {
                    lemma_fold_of_push(library_scrub(rel@.take(i as int)), '-');
                }
                push_chars(&mut out, &f);
            } else {
                let f = fold_char(c);
                proof {
                    lemma_fold_of_push(library_scrub(rel@.take(i as int)), c);
                }
                push_chars(&mut out, &f);
            }
            i = i + 1;
        }
        assert(rel@.take(n as int) =~= rel@);
        proof {
            lemma_folded_fixed(out@);
        }
        out
    }

    /// The entry's location relative to its base directory.
    pub fn debase(&self) -> (r: String)
        requires
            self.wf(),
        ensures
            r@ == rel_of(self.path@, self.base@),
    {
        match relative_to(self.path.as_str(), self.base.as_str()) {
            Ok(s) => s,
            Err(_) => {
                proof {
                    assert(false);
                }
                String::new()
            },
        }
    }
}

impl Clone for LibraryFile {
    fn clone(&self) -> (r: Self)
        ensures
            r == *self,
    {
        LibraryFile {
            id: self.id.clone(),
            path: self.path.clone(),
            base: self.base.clone(),
            source: self.source,
        }
    }
}

/// Some entry of `v` carries the identity held by `id`.
pub fn contains_id(v: &Vec<LibraryFile>, id: &String) -> (r: bool)
    ensures
        r == has_id(views_of(v@), id@),
{
    let n = v.len();
    let mut i: usize = 0;
    while i < n
        invariant
            n == v@.len(),
            i <= n,
            forall|k: int| 0 <= k < i ==> views_of(v@)[k].id != id@,
        decreases n - i,
    {
        if v[i].id == *id {
            assert(views_of(v@)[i as int].id == id@);
            return true;
        }
        i = i + 1;
    }
    false
}

/// Build the library set of one scan: normalize every reported path,
/// dropping a path whose identity an earlier path already produced.
fn build_library(base: &str, paths: &Vec<String>, source: LibrarySource) -> (r: Vec<LibraryFile>)
    requires
        forall|k: int| 0 <= k < paths@.len() ==> path_descends(#[trigger] paths@[k]@, base@),
    ensures
        views_of(r@) == spec_scan(paths.deep_view(), base@, source),
        forall|k: int| 0 <= k < r@.len() ==> (#[trigger] r@[k]).wf() && r@[k].source == source
            && r@[k].base@ == base@,
        unique_ids(views_of(r@)),
{
    let ghost pv = paths.deep_view();
    let n = paths.len();
    let mut r: Vec<LibraryFile> = Vec::new();
    let mut i: usize = 0;
    assert(views_of(r@) =~= spec_scan(pv.take(0), base@, source));
    while i < n
        invariant
            n == paths@.len(),
            pv == paths.deep_view(),
            i <= n,
            forall|k: int| 0 <= k < paths@.len() ==> path_descends(#[trigger] paths@[k]@, base@),
            views_of(r@) == spec_scan(pv.take(i as int), base@, source),
            forall|k: int| 0 <= k < r@.len() ==> (#[trigger] r@[k]).wf() && r@[k].source == source
                && r@[k].base@ == base@,
            unique_ids(views_of(r@)),
        decreases n - i,
    {
        assert(pv[i as int] == paths@[i as int]@);
        let e = LibraryFile::new(paths[i].as_str(), base, source);
        proof {
            assert(pv.take(i + 1 as int).drop_last() =~= pv.take(i as int));
            assert(pv.take(i + 1 as int).last() == pv[i as int]);
        }
        if !contains_id(&r, &e.id) {
            let ghost old_r = r@;
            r.push(e);
            assert(views_of(r@) =~= views_of(old_r).push(e@));
        }
        i = i + 1;
    }
    assert(pv.take(n as int) =~= pv);
    r
}

/// Build the local side's library set from the paths a scan of `base`
/// reported.
pub fn get_local_media_library(base: &str, paths: &Vec<String>) -> (r: Vec<LibraryFile>)
    requires
        forall|k: int| 0 <= k < paths@.len() ==> path_descends(#[trigger] paths@[k]@, base@),
    ensures
        views_of(r@) == spec_scan(paths.deep_view(), base@, LibrarySource::Local),
        forall|k: int| 0 <= k < r@.len() ==> (#[trigger] r@[k]).wf() && r@[k].source
            == LibrarySource::Local && r@[k].base@ == base@,
        unique_ids(views_of(r@)),
{
    build_library(base, paths, LibrarySource::Local)
}

/// Build the device side's library set from the paths a scan of the
/// device's mount point reported.
pub fn get_dms_media_library(base: &str, paths: &Vec<String>) -> (r: Vec<LibraryFile>)
    requires
        forall|k: int| 0 <= k < paths@.len() ==> path_descends(#[trigger] paths@[k]@, base@),
    ensures
        views_of(r@) == spec_scan(paths.deep_view(), base@, LibrarySource::DMS),
        forall|k: int| 0 <= k < r@.len() ==> (#[trigger] r@[k]).wf() && r@[k].source
            == LibrarySource::DMS && r@[k].base@ == base@,
        unique_ids(views_of(r@)),
{
    build_library(base, paths, LibrarySource::DMS)
}

} // verus!
