//! The diff engine and the synchronization plan.
//!
//! The diff of two library sets is pure set algebra over identities: an
//! entry of the local set whose identity the device set lacks is `added`,
//! an entry of the device set whose identity the local set lacks is
//! `deleted`, and identity-equal pairs are candidates for the change
//! detector.  Applying the diff is planned here as plain values — which
//! file to copy where, which directory to create, which file to delete —
//! and carried out by unverified I/O outside the crate.

use vstd::prelude::*;
use vstd::seq_lib::group_seq_properties;
use crate::library::{LibraryFile, LibraryFileView, LibrarySource, contains_id, has_id, views_of};
use crate::paths::{parent_dir, parent_of, path_join, rel_of};

verus! {

/// Entries of the local set whose identity the device set lacks.
pub open spec fn spec_added(l: Seq<LibraryFileView>, d: Seq<LibraryFileView>) -> Seq<
    LibraryFileView,
> {
    l.filter(|e: LibraryFileView| !has_id(d, e.id))
}

/// Entries of the device set whose identity the local set lacks.
pub open spec fn spec_deleted(l: Seq<LibraryFileView>, d: Seq<LibraryFileView>) -> Seq<
    LibraryFileView,
> {
    d.filter(|e: LibraryFileView| !has_id(l, e.id))
}

/// Entries of `l` whose identity also occurs in `d`: the candidate pairs'
/// `l` side, in `l`'s order.
pub open spec fn spec_common(l: Seq<LibraryFileView>, d: Seq<LibraryFileView>) -> Seq<
    LibraryFileView,
> {
    l.filter(|e: LibraryFileView| has_id(d, e.id))
}

/// The identities that occur in a set of entries.
pub open spec fn id_set(s: Seq<LibraryFileView>) -> Set<Seq<char>> {
    Set::new(|id: Seq<char>| has_id(s, id))
}

/// Filtering the one-longer prefix either appends the new element or not,
/// according to the predicate.
proof fn lemma_filter_take_step(s: Seq<LibraryFileView>, pred: spec_fn(LibraryFileView) -> bool, i: int)
    requires
        0 <= i < s.len(),
    ensures
        s.take(i + 1).filter(pred) == if pred(s[i]) {
            s.take(i).filter(pred).push(s[i])
        } else {
            s.take(i).filter(pred)
        },
{
    reveal(Seq::filter);
    assert(s.take(i + 1).drop_last() =~= s.take(i));
    assert(s.take(i + 1).last() == s[i]);
}

/// A sequence all of whose elements satisfy the predicate is unchanged by
/// filtering with it.
proof fn lemma_filter_all(s: Seq<LibraryFileView>, pred: spec_fn(LibraryFileView) -> bool)
    requires
        forall|i: int| 0 <= i < s.len() ==> pred(#[trigger] s[i]),
    ensures
        s.filter(pred) == s,
    decreases s.len(),
{
    reveal(Seq::filter);
    if s.len() > 0 {
        assert(forall|i: int|
            0 <= i < s.drop_last().len() ==> pred(#[trigger] s.drop_last()[i]));
        lemma_filter_all(s.drop_last(), pred);
        assert(s.drop_last().push(s.last()) =~= s);
    }
}

/// A sequence none of whose elements satisfies the predicate filters to
/// nothing.
proof fn lemma_filter_none(s: Seq<LibraryFileView>, pred: spec_fn(LibraryFileView) -> bool)
    requires
        forall|i: int| 0 <= i < s.len() ==> !pred(#[trigger] s[i]),
    ensures
        s.filter(pred) == Seq::<LibraryFileView>::empty(),
    decreases s.len(),
{
    reveal(Seq::filter);
    if s.len() > 0 {
        assert(forall|i: int|
            0 <= i < s.drop_last().len() ==> !pred(#[trigger] s.drop_last()[i]));
        lemma_filter_none(s.drop_last(), pred);
    }
}

/// An identity occurs among the added entries exactly when the local set
/// has it and the device set lacks it.
pub proof fn lemma_has_id_added(l: Seq<LibraryFileView>, d: Seq<LibraryFileView>, id: Seq<char>)
    ensures
        has_id(spec_added(l, d), id) <==> (has_id(l, id) && !has_id(d, id)),
{
    broadcast use group_seq_properties;

    let pred = |e: LibraryFileView| !has_id(d, e.id);
    if has_id(spec_added(l, d), id) {
        let i = choose|i: int| 0 <= i < spec_added(l, d).len() && spec_added(l, d)[i].id == id;
        let e = spec_added(l, d)[i];
        l.lemma_filter_pred(pred, i);
        assert(l.filter(pred).contains(e));
        l.lemma_filter_contains_rev(pred, e);
        let j = choose|j: int| 0 <= j < l.len() && l[j] == e;
        assert(has_id(l, id));
    }
    if has_id(l, id) && !has_id(d, id) {
        let i = choose|i: int| 0 <= i < l.len() && l[i].id == id;
        l.lemma_filter_contains(pred, i);
        let e = l[i];
        let j = choose|j: int| 0 <= j < l.filter(pred).len() && l.filter(pred)[j] == e;
        assert(spec_added(l, d)[j].id == id);
    }
}

/// An identity occurs among the deleted entries exactly when the device
/// set has it and the local set lacks it.
pub proof fn lemma_has_id_deleted(l: Seq<LibraryFileView>, d: Seq<LibraryFileView>, id: Seq<char>)
    ensures
        has_id(spec_deleted(l, d), id) <==> (has_id(d, id) && !has_id(l, id)),
{
    lemma_has_id_added(d, l, id);
}

/// An identity occurs among the candidates exactly when both sets have it.
pub proof fn lemma_has_id_common(l: Seq<LibraryFileView>, d: Seq<LibraryFileView>, id: Seq<char>)
    ensures
        has_id(spec_common(l, d), id) <==> (has_id(l, id) && has_id(d, id)),
{
    broadcast use group_seq_properties;

    let pred = |e: LibraryFileView| has_id(d, e.id);
    if has_id(spec_common(l, d), id) {
        let i = choose|i: int| 0 <= i < spec_common(l, d).len() && spec_common(l, d)[i].id == id;
        let e = spec_common(l, d)[i];
        l.lemma_filter_pred(pred, i);
        assert(l.filter(pred).contains(e));
        l.lemma_filter_contains_rev(pred, e);
        let j = choose|j: int| 0 <= j < l.len() && l[j] == e;
        assert(has_id(l, id));
    }
    if has_id(l, id) && has_id(d, id) {
        let i = choose|i: int| 0 <= i < l.len() && l[i].id == id;
        l.lemma_filter_contains(pred, i);
        let e = l[i];
        let j = choose|j: int| 0 <= j < l.filter(pred).len() && l.filter(pred)[j] == e;
        assert(spec_common(l, d)[j].id == id);
    }
}

/// Diff totality: the added entries and the candidates' local side together
/// are exactly the local set; the deleted entries and the candidates'
/// device side together are exactly the device set; and no identity is
/// both added and deleted.
pub proof fn lemma_diff_totality(l: Seq<LibraryFileView>, d: Seq<LibraryFileView>)
    ensures
        spec_added(l, d).to_set().union(spec_common(l, d).to_set()) == l.to_set(),
        spec_deleted(l, d).to_set().union(spec_common(d, l).to_set()) == d.to_set(),
        forall|id: Seq<char>| !(has_id(spec_added(l, d), id) && has_id(spec_deleted(l, d), id)),
{
    broadcast use group_seq_properties;

    let pa = |e: LibraryFileView| !has_id(d, e.id);
    let pc = |e: LibraryFileView| has_id(d, e.id);
    assert forall|e: LibraryFileView|
        spec_added(l, d).to_set().union(spec_common(l, d).to_set()).contains(e)
            <==> l.to_set().contains(e) by {
        if l.contains(e) {
            let i = choose|i: int| 0 <= i < l.len() && l[i] == e;
            if pa(e) {
                l.lemma_filter_contains(pa, i);
            } else {
                l.lemma_filter_contains(pc, i);
            }
        }
        if l.filter(pa).contains(e) {
            l.lemma_filter_contains_rev(pa, e);
        }
        if l.filter(pc).contains(e) {
            l.lemma_filter_contains_rev(pc, e);
        }
    }
    assert(spec_added(l, d).to_set().union(spec_common(l, d).to_set()) =~= l.to_set());

    let qa = |e: LibraryFileView| !has_id(l, e.id);
    let qc = |e: LibraryFileView| has_id(l, e.id);
    assert forall|e: LibraryFileView|
        spec_deleted(l, d).to_set().union(spec_common(d, l).to_set()).contains(e)
            <==> d.to_set().contains(e) by {
        if d.contains(e) {
            let i = choose|i: int| 0 <= i < d.len() && d[i] == e;
            if qa(e) {
                d.lemma_filter_contains(qa, i);
            } else {
                d.lemma_filter_contains(qc, i);
            }
        }
        if d.filter(qa).contains(e) {
            d.lemma_filter_contains_rev(qa, e);
        }
        if d.filter(qc).contains(e) {
            d.lemma_filter_contains_rev(qc, e);
        }
    }
    assert(spec_deleted(l, d).to_set().union(spec_common(d, l).to_set()) =~= d.to_set());

    assert forall|id: Seq<char>|
        !(has_id(spec_added(l, d), id) && has_id(spec_deleted(l, d), id)) by {
        lemma_has_id_added(l, d, id);
        lemma_has_id_deleted(l, d, id);
    }
}

/// Diff symmetry: the entries added when syncing `l` against `d` are
/// exactly the entries deleted when syncing `d` against `l`, and the other
/// way around.
pub proof fn lemma_diff_symmetry(l: Seq<LibraryFileView>, d: Seq<LibraryFileView>)
    ensures
        spec_added(l, d) == spec_deleted(d, l),
        spec_deleted(l, d) == spec_added(d, l),
{
}

/// Applying a diff leaves the device holding exactly the local set's
/// identities: what was deleted is gone, what was added is there, the rest
/// was common to both sides already.
pub proof fn lemma_apply_diff_ids(l: Seq<LibraryFileView>, d: Seq<LibraryFileView>)
    ensures
        id_set(d).difference(id_set(spec_deleted(l, d))).union(id_set(spec_added(l, d)))
            == id_set(l),
{
    assert forall|id: Seq<char>|
        id_set(d).difference(id_set(spec_deleted(l, d))).union(
            id_set(spec_added(l, d)),
        ).contains(id) <==> id_set(l).contains(id) by {
        lemma_has_id_added(l, d, id);
        lemma_has_id_deleted(l, d, id);
    }
    assert(id_set(d).difference(id_set(spec_deleted(l, d))).union(id_set(spec_added(l, d)))
        =~= id_set(l));
}

/// Idempotent sync: against a device set that already holds exactly the
/// local set's identities — as it does after one sync pass — the diff is
/// empty: nothing is added, nothing is deleted, and every local entry is
/// merely a candidate pair for the change detector.
pub proof fn lemma_sync_idempotent(l: Seq<LibraryFileView>, d: Seq<LibraryFileView>)
    requires
        id_set(d) == id_set(l),
    ensures
        spec_added(l, d) == Seq::<LibraryFileView>::empty(),
        spec_deleted(l, d) == Seq::<LibraryFileView>::empty(),
        spec_common(l, d) == l,
{
    assert forall|i: int| 0 <= i < l.len() implies has_id(d, #[trigger] l[i].id) by {
        assert(has_id(l, l[i].id));
        assert(id_set(l).contains(l[i].id));
        assert(id_set(d).contains(l[i].id));
    }
    lemma_filter_none(l, |e: LibraryFileView| !has_id(d, e.id));
    lemma_filter_all(l, |e: LibraryFileView| has_id(d, e.id));
    assert forall|i: int| 0 <= i < d.len() implies has_id(l, #[trigger] d[i].id) by {
        assert(has_id(d, d[i].id));
        assert(id_set(d).contains(d[i].id));
        assert(id_set(l).contains(d[i].id));
    }
    lemma_filter_none(d, |e: LibraryFileView| !has_id(l, e.id));
}

/// The entries to be copied to the device: present locally, absent on the
/// device, by identity.
pub fn added_files(local: &Vec<LibraryFile>, dms: &Vec<LibraryFile>) -> (r: Vec<LibraryFile>)
    ensures
        views_of(r@) == spec_added(views_of(local@), views_of(dms@)),
{
    let ghost lv = views_of(local@);
    let ghost dv = views_of(dms@);
    let ghost pred = |e: LibraryFileView| !has_id(dv, e.id);
    let n = local.len();
    let mut r: Vec<LibraryFile> = Vec::new();
    let mut i: usize = 0;
    proof {
        reveal(Seq::filter);
        assert(lv.take(0) =~= Seq::<LibraryFileView>::empty());
        assert(views_of(r@) =~= lv.take(0).filter(pred));
    }
    while i < n
        invariant
            n == local@.len(),
            lv == views_of(local@),
            dv == views_of(dms@),
            pred == (|e: LibraryFileView| !has_id(dv, e.id)),
            i <= n,
            views_of(r@) == lv.take(i as int).filter(pred),
        decreases n - i,
    {
        assert(lv[i as int] == local@[i as int]@);
        proof {
            lemma_filter_take_step(lv, pred, i as int);
        }
        if !contains_id(dms, &local[i].id) {
            let ghost old_r = r@;
            r.push(local[i].clone());
            assert(views_of(r@) =~= views_of(old_r).push(local@[i as int]@));
        }
        i = i + 1;
    }
    assert(lv.take(n as int) =~= lv);
    r
}

/// The entries to be removed from the device: present on the device,
/// absent locally, by identity.
pub fn deleted_files(local: &Vec<LibraryFile>, dms: &Vec<LibraryFile>) -> (r: Vec<LibraryFile>)
    ensures
        views_of(r@) == spec_deleted(views_of(local@), views_of(dms@)),
{
    let ghost lv = views_of(local@);
    let ghost dv = views_of(dms@);
    let ghost pred = |e: LibraryFileView| !has_id(lv, e.id);
    let n = dms.len();
    let mut r: Vec<LibraryFile> = Vec::new();
    let mut i: usize = 0;
    proof {
        reveal(Seq::filter);
        assert(dv.take(0) =~= Seq::<LibraryFileView>::empty());
        assert(views_of(r@) =~= dv.take(0).filter(pred));
    }
    while i < n
        invariant
            n == dms@.len(),
            lv == views_of(local@),
            dv == views_of(dms@),
            pred == (|e: LibraryFileView| !has_id(lv, e.id)),
            i <= n,
            views_of(r@) == dv.take(i as int).filter(pred),
        decreases n - i,
    {
        assert(dv[i as int] == dms@[i as int]@);
        proof {
            lemma_filter_take_step(dv, pred, i as int);
        }
        if !contains_id(local, &dms[i].id) {
            let ghost old_r = r@;
            r.push(dms[i].clone());
            assert(views_of(r@) =~= views_of(old_r).push(dms@[i as int]@));
        }
        i = i + 1;
    }
    assert(dv.take(n as int) =~= dv);
    r
}

/// The index of an entry of `v` carrying identity `id`, when there is one.
pub fn find_by_id(v: &Vec<LibraryFile>, id: &String) -> (r: Option<usize>)
    ensures
        r matches Some(j) ==> j < v@.len() && v@[j as int].id@ == id@,
        r is None ==> !has_id(views_of(v@), id@),
{
    let n = v.len();
    let mut i: usize = 0;
    while i < n
        invariant
            n == v@.len(),
            i <= n,
            forall|k: int| 0 <= k < i ==> views_of(v@)[k].id != id@,
        decreases n - i,
    {
        if v[i].id == *id {
            return Some(i);
        }
        assert(views_of(v@)[i as int].id == v@[i as int].id@);
        i = i + 1;
    }
    None
}

/// The candidate pairs of two library sets: for every local entry whose
/// identity the device set also holds, that entry paired with a device
/// entry of the same identity.
pub fn candidate_pairs(local: &Vec<LibraryFile>, dms: &Vec<LibraryFile>) -> (r: Vec<
    (LibraryFile, LibraryFile),
>)
    ensures
        r@.map_values(|p: (LibraryFile, LibraryFile)| p.0@) == spec_common(
            views_of(local@),
            views_of(dms@),
        ),
        forall|k: int| 0 <= k < r@.len() ==> (#[trigger] r@[k]).1.id@ == r@[k].0.id@ && views_of(
            dms@,
        ).contains(r@[k].1@),
{
    let ghost lv = views_of(local@);
    let ghost dv = views_of(dms@);
    let ghost pred = |e: LibraryFileView| has_id(dv, e.id);
    let n = local.len();
    let mut r: Vec<(LibraryFile, LibraryFile)> = Vec::new();
    let mut i: usize = 0;
    proof {
        reveal(Seq::filter);
        assert(lv.take(0) =~= Seq::<LibraryFileView>::empty());
        assert(r@.map_values(|p: (LibraryFile, LibraryFile)| p.0@) =~= lv.take(0).filter(pred));
    }
    while i < n
        invariant
            n == local@.len(),
            lv == views_of(local@),
            dv == views_of(dms@),
            pred == (|e: LibraryFileView| has_id(dv, e.id)),
            i <= n,
            r@.map_values(|p: (LibraryFile, LibraryFile)| p.0@) == lv.take(i as int).filter(pred),
            forall|k: int| 0 <= k < r@.len() ==> (#[trigger] r@[k]).1.id@ == r@[k].0.id@
                && dv.contains(r@[k].1@),
        decreases n - i,
    {
        assert(lv[i as int] == local@[i as int]@);
        proof {
            lemma_filter_take_step(lv, pred, i as int);
        }
        match find_by_id(dms, &local[i].id) {
            Some(j) => {
                let ghost old_r = r@;
                assert(dv.contains(dms@[j as int]@)) by {
                    assert(dv[j as int] == dms@[j as int]@);
                }
                r.push((local[i].clone(), dms[j].clone()));
                assert(r@.map_values(|p: (LibraryFile, LibraryFile)| p.0@) =~= old_r.map_values(
                    |p: (LibraryFile, LibraryFile)| p.0@,
                ).push(local@[i as int]@));
                assert(has_id(dv, lv[i as int].id)) by {
                    assert(dv[j as int].id == lv[i as int].id);
                }
            },
            None => {
            },
        }
        i = i + 1;
    }
    assert(lv.take(n as int) =~= lv);
    r
}

/// One planned copy: read `source`, write `dest`, creating `dest_dir`
/// first; after the bytes, the source's modification time is copied onto
/// the destination.
pub struct CopyOp {
    pub source: String,
    pub dest: String,
    pub dest_dir: String,
}

/// Plan the copy step for a list of entries (the added and the changed
/// files alike): each entry's destination is its location relative to its
/// own base, re-based under the device root, and the directory to create
/// is the destination's parent.
pub fn copy_plan(files: &Vec<LibraryFile>, dms_dir: &str) -> (r: Vec<CopyOp>)
    requires
        forall|k: int| 0 <= k < files@.len() ==> (#[trigger] files@[k]).wf(),
    ensures
        r@.len() == files@.len(),
        forall|k: int|
            0 <= k < r@.len() ==> {
                let e = #[trigger] files@[k];
                &&& r@[k].source@ == e.path@
                &&& r@[k].dest@ == dms_dir@ + seq!['/'] + rel_of(e.path@, e.base@)
                &&& r@[k].dest_dir@ == parent_of(r@[k].dest@)
            },
{
    let n = files.len();
    let mut r: Vec<CopyOp> = Vec::new();
    let mut i: usize = 0;
    while i < n
        invariant
            n == files@.len(),
            i <= n,
            forall|k: int| 0 <= k < files@.len() ==> (#[trigger] files@[k]).wf(),
            r@.len() == i,
            forall|k: int|
                0 <= k < i ==> {
                    let e = #[trigger] files@[k];
                    &&& r@[k].source@ == e.path@
                    &&& r@[k].dest@ == dms_dir@ + seq!['/'] + rel_of(e.path@, e.base@)
                    &&& r@[k].dest_dir@ == parent_of(r@[k].dest@)
                },
        decreases n - i,
    {
        let rel = files[i].debase();
        let dest = path_join(dms_dir, rel.as_str());
        assert(dest@.contains('/')) by {
            assert(dest@[dms_dir@.len() as int] == '/');
        }
        let dest_dir = match parent_dir(dest.as_str()) {
            Some(p) => p,
            None => {
                proof {
                    assert(false);
                }
                String::new()
            },
        };
        let source = files[i].path.clone();
        r.push(CopyOp { source, dest, dest_dir });
        i = i + 1;
    }
    r
}

/// The paths that the delete step removes: those of the device-origin
/// entries, in order.  Entries not recorded as device-origin are kept, as a
/// guard against misclassification ever deleting a local file.
pub open spec fn spec_delete_paths(s: Seq<LibraryFileView>) -> Seq<Seq<char>> {
    s.filter(|e: LibraryFileView| e.source == LibrarySource::DMS).map_values(
        |e: LibraryFileView| e.path,
    )
}

/// Plan the delete step: the paths of those entries whose recorded origin
/// is the device.
pub fn delete_plan(files: &Vec<LibraryFile>) -> (r: Vec<String>)
    ensures
        r.deep_view() == spec_delete_paths(views_of(files@)),
{
    let ghost fv = views_of(files@);
    let ghost pred = |e: LibraryFileView| e.source == LibrarySource::DMS;
    let n = files.len();
    let mut r: Vec<String> = Vec::new();
    let mut i: usize = 0;
    proof {
        reveal(Seq::filter);
        assert(fv.take(0) =~= Seq::<LibraryFileView>::empty());
        assert(r.deep_view() =~= fv.take(0).filter(pred).map_values(
            |e: LibraryFileView| e.path,
        ));
    }
    while i < n
        invariant
            n == files@.len(),
            fv == views_of(files@),
            pred == (|e: LibraryFileView| e.source == LibrarySource::DMS),
            i <= n,
            r.deep_view() == fv.take(i as int).filter(pred).map_values(
                |e: LibraryFileView| e.path,
            ),
        decreases n - i,
    {
        assert(fv[i as int] == files@[i as int]@);
        proof {
            lemma_filter_take_step(fv, pred, i as int);
        }
        let is_dms = match files[i].source {
            LibrarySource::DMS => true,
            LibrarySource::Local => false,
        };
        if is_dms {
            let ghost old_r = r.deep_view();
            r.push(files[i].path.clone());
            assert(r.deep_view() =~= old_r.push(files@[i as int].path@));
        }
        i = i + 1;
    }
    assert(fv.take(n as int) =~= fv);
    r
}

} // verus!
