//! Unicode case folding, the heart of identity normalization.
//!
//! The folding itself is done by the `unicode_casefold` crate (full,
//! non-Turkic folding, the crate's default).  Its result is named by the
//! uninterpreted function [`fold_char_of`]; what this module proves is how
//! folding whole sequences behaves: folding is done character by character,
//! and a sequence made only of folded characters is left unchanged by
//! another round of folding.

use vstd::prelude::*;
use unicode_casefold::UnicodeCaseFold;
use crate::strutil::push_chars;

verus! {

/// The sequence of characters that the default (full, non-Turkic) Unicode
/// case folding of the `unicode_casefold` crate turns one character into.
pub uninterp spec fn fold_char_of(c: char) -> Seq<char>;

/// The case folding of a whole sequence: every character folded, the results
/// concatenated in order.
pub open spec fn fold_of(s: Seq<char>) -> Seq<char>
    decreases s.len(),
{
    if s.len() == 0 {
        Seq::empty()
    } else {
        fold_of(s.drop_last()) + fold_char_of(s.last())
    }
}

/// A sequence is folded when every one of its characters is its own case
/// folding.
pub open spec fn folded(s: Seq<char>) -> bool {
    forall|i: int| 0 <= i < s.len() ==> fold_char_of(s[i]) == seq![s[i]]
}

/// Relies on `char::case_fold` of `unicode_casefold` (with its defaults,
/// `Variant::Full` and `Locale::NonTurkic`): the folded form of a character
/// is a function of that character alone, computed by lookup in fixed
/// tables; and no character those tables produce is itself a key of the
/// tables, so every character of the result folds to itself.
#[verifier::external_body]
pub fn fold_char(c: char) -> (r: Vec<char>)
    ensures
        r@ == fold_char_of(c),
        folded(r@),
{
    c.case_fold().collect()
}

/// Folding a sequence extended by one character appends that character's
/// folding.
pub proof fn lemma_fold_of_push(s: Seq<char>, c: char)
    ensures
        fold_of(s.push(c)) == fold_of(s) + fold_char_of(c),
{
    assert(s.push(c).drop_last() =~= s);
    assert(s.push(c).last() == c);
}

/// Folding the empty sequence gives the empty sequence.
pub proof fn lemma_fold_of_empty()
    ensures
        fold_of(Seq::<char>::empty()) == Seq::<char>::empty(),
{
}

/// A folded sequence is a fixed point of case folding.  Together with the
/// fact that every identity this crate produces is folded, this makes
/// identity normalization idempotent under case folding.
pub proof fn lemma_folded_fixed(s: Seq<char>)
    requires
        folded(s),
    ensures
        fold_of(s) == s,
    decreases s.len(),
{
    if s.len() == 0 {
        assert(fold_of(s) =~= s);
    } else {
        assert(folded(s.drop_last())) by {
            assert(forall|i: int|
                0 <= i < s.drop_last().len() ==> s.drop_last()[i] == s[i]);
        }
        lemma_folded_fixed(s.drop_last());
        assert(fold_char_of(s.last()) == seq![s.last()]);
        assert(s.drop_last() + seq![s.last()] =~= s);
    }
}

/// Fold a whole string.  The result is the concatenated folding of its
/// characters, and is itself folded.
pub fn fold_str(s: &str) -> (r: String)
    ensures
        r@ == fold_of(s@),
        folded(r@),
{
    let n = s.unicode_len();
    let mut r = String::new();
    let mut i: usize = 0;
    while i < n
        invariant
            n == s@.len(),
            i <= n,
            r@ == fold_of(s@.take(i as int)),
            folded(r@),
        decreases n - i,
    {
        let c = s.get_char(i);
        let f = fold_char(c);
        proof {
            lemma_fold_of_push(s@.take(i as int), c);
            assert(s@.take(i as int).push(c) =~= s@.take(i + 1 as int));
        }
        push_chars(&mut r, &f);
        i = i + 1;
    }
    assert(s@.take(n as int) =~= s@);
    r
}

} // verus!
