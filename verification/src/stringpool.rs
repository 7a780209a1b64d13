//! A string interning pool.
//!
//! The pool de-duplicates strings: asking twice for equal text yields two
//! handles to one shared allocation.  It is an explicit cache object,
//! passed by reference to whoever needs string de-duplication.

use vstd::prelude::*;
use std::sync::Arc;

verus! {

/// An interning pool of shared strings.
pub struct StringPool {
    entries: Vec<Arc<String>>,
}

impl View for StringPool {
    type V = Seq<Seq<char>>;

    closed spec fn view(&self) -> Seq<Seq<char>> {
        self.entries@.map_values(|a: Arc<String>| a@)
    }
}

/// Relies on `Arc::deref` from std: an `Arc` dereferences to the value it
/// was built from.
#[verifier::external_body]
fn arc_str(a: &Arc<String>) -> (r: &String)
    ensures
        r@ == a@,
{
    &**a
}

/// Relies on `Arc::clone` from std: cloning an `Arc` yields another handle
/// to the same allocation, so the value seen through it is unchanged.
#[verifier::external_body]
fn arc_clone(a: &Arc<String>) -> (r: Arc<String>)
    ensures
        r@ == a@,
{
    a.clone()
}

impl StringPool {
    /// A fresh, empty pool.
    pub fn new() -> (r: StringPool)
        ensures
            r@ == Seq::<Seq<char>>::empty(),
    {
        let r = StringPool { entries: Vec::new() };
        assert(r@ =~= Seq::<Seq<char>>::empty());
        r
    }

    /// A handle to the pooled copy of `value`: the existing one when the
    /// pool already holds equal text, a newly pooled one otherwise.
    pub fn get(&mut self, value: &str) -> (r: Arc<String>)
        ensures
            r@ == value@,
            old(self)@.contains(value@) ==> final(self)@ == old(self)@,
            !old(self)@.contains(value@) ==> final(self)@ == old(self)@.push(value@),
    {
        let v = value.to_owned();
        let n = self.entries.len();
        let mut i: usize = 0;
        while i < n
            invariant
                n == self.entries@.len(),
                v@ == value@,
                i <= n,
                forall|k: int| 0 <= k < i ==> self@[k] != value@,
            decreases n - i,
        {
            let s = arc_str(&self.entries[i]);
            if *s == v {
                assert(self@[i as int] == value@);
                return arc_clone(&self.entries[i]);
            }
            i = i + 1;
        }
        assert(forall|k: int| 0 <= k < self@.len() ==> self@[k] != value@);
        assert(!self@.contains(value@));
        let a = Arc::new(v);
        let r = arc_clone(&a);
        let ghost old_view = self@;
        self.entries.push(a);
        assert(self@ =~= old_view.push(value@));
        r
    }
}

} // verus!
