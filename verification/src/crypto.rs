//! Content digests.
//!
//! The change detector's last tier compares strong content hashes of the
//! two files of a candidate pair.  Computing a digest means reading a file,
//! so it happens outside this crate; what lives here is the digest value,
//! its comparison, and its rendering.

use vstd::prelude::*;
use crate::strutil::push_char;

verus! {

/// A SHA-256 digest: 32 bytes of hash output.
pub struct Sha256Digest(pub [u8; 32]);

impl View for Sha256Digest {
    type V = Seq<u8>;

    open spec fn view(&self) -> Seq<u8> {
        self.0@
    }
}

impl Sha256Digest {
    pub fn new(bytes: [u8; 32]) -> (r: Sha256Digest)
        ensures
            r@ == bytes@,
    {
        Sha256Digest(bytes)
    }

    /// Two digests are equal exactly when all their bytes agree.
    pub fn equals(&self, other: &Sha256Digest) -> (r: bool)
        ensures
            r == (self@ == other@),
    {
        let mut i: usize = 0;
        while i < 32
            invariant
                i <= 32,
                self@.len() == 32,
                other@.len() == 32,
                forall|k: int| 0 <= k < i ==> self@[k] == other@[k],
            decreases 32 - i,
        {
            if self.0[i] != other.0[i] {
                return false;
            }
            i = i + 1;
        }
        assert(self@ =~= other@);
        true
    }

    /// Render the digest as lowercase hexadecimal, two digits per byte.
    pub fn to_hex(&self) -> (r: String)
        ensures
            r@ == hex_of(self@),
    {
        let digits: [char; 16] = [
            '0', '1', '2', '3', '4', '5', '6', '7', '8', '9', 'a', 'b', 'c', 'd', 'e', 'f',
        ];
        assert(forall|k: int| 0 <= k < 16 ==> digits@[k] == hex_digit(k));
        let mut r = String::new();
        let mut i: usize = 0;
        while i < 32
            invariant
                i <= 32,
                self@.len() == 32,
                forall|k: int| 0 <= k < 16 ==> digits@[k] == hex_digit(k),
                r@ == hex_of(self@.take(i as int)),
            decreases 32 - i,
        {
            let b = self.0[i];
            proof {
                assert(self@.take(i + 1 as int).drop_last() =~= self@.take(i as int));
                assert(self@.take(i + 1 as int).last() == self@[i as int]);
            }
            push_char(&mut r, digits[(b / 16) as usize]);
            push_char(&mut r, digits[(b % 16) as usize]);
            i = i + 1;
        }
        assert(self@.take(32) =~= self@);
        r
    }
}

/// The hexadecimal digit for a value below sixteen.
pub open spec fn hex_digit(n: int) -> char {
    seq!['0', '1', '2', '3', '4', '5', '6', '7', '8', '9', 'a', 'b', 'c', 'd', 'e', 'f'][n]
}

/// The lowercase hexadecimal rendering of a byte sequence, two digits per
/// byte, in order.
pub open spec fn hex_of(s: Seq<u8>) -> Seq<char>
    decreases s.len(),
{
    if s.len() == 0 {
        Seq::empty()
    } else {
        hex_of(s.drop_last()) + seq![
            hex_digit(s.last() as int / 16),
            hex_digit(s.last() as int % 16),
        ]
    }
}

} // verus!
