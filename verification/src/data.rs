//! The device's own database index files.
//!
//! The device keeps, beside its media files, index files that list byte
//! offsets into its CSV databases.  The binary layout — a little-endian
//! count followed by the offsets, little-endian, in order — is encoded
//! here; writing the bytes to disk happens outside this crate.

use vstd::prelude::*;

verus! {

/// The four little-endian bytes of a 32-bit value.
pub open spec fn le4(n: int) -> Seq<u8> {
    seq![
        (n % 256) as u8,
        ((n / 256) % 256) as u8,
        ((n / 65536) % 256) as u8,
        ((n / 16777216) % 256) as u8,
    ]
}

/// The concatenated little-endian encodings of a sequence of offsets.
pub open spec fn le4_all(s: Seq<u32>) -> Seq<u8>
    decreases s.len(),
{
    if s.len() == 0 {
        Seq::empty()
    } else {
        le4_all(s.drop_last()) + le4(s.last() as int)
    }
}

/// Append the four little-endian bytes of `n`.
fn push_le4(out: &mut Vec<u8>, n: u32)
    ensures
        final(out)@ == old(out)@ + le4(n as int),
{
    out.push((n % 256) as u8);
    out.push((n / 256 % 256) as u8);
    out.push((n / 65536 % 256) as u8);
    out.push((n / 16777216 % 256) as u8);
    assert(out@ =~= old(out)@ + le4(n as int));
}

/// The database index into the tracks CSV file.
pub struct TracksDbIndex {
    pub track_offsets: Vec<u32>,
}

impl TracksDbIndex {
    /// Encode this index: the number of offsets as a little-endian 32-bit
    /// count, then each offset, little-endian, in order.
    pub fn to_bytes(&self) -> (r: Vec<u8>)
        requires
            self.track_offsets@.len() <= u32::MAX,
        ensures
            r@ == le4(self.track_offsets@.len() as int) + le4_all(self.track_offsets@),
    {
        let n = self.track_offsets.len();
        let mut r: Vec<u8> = Vec::new();
        push_le4(&mut r, n as u32);
        let mut i: usize = 0;
        while i < n
            invariant
                n == self.track_offsets@.len(),
                n <= u32::MAX,
                i <= n,
                r@ == le4(n as int) + le4_all(self.track_offsets@.take(i as int)),
            decreases n - i,
        {
            proof {
                assert(self.track_offsets@.take(i + 1 as int).drop_last()
                    =~= self.track_offsets@.take(i as int));
            }
            push_le4(&mut r, self.track_offsets[i]);
            i = i + 1;
        }
        assert(self.track_offsets@.take(n as int) =~= self.track_offsets@);
        r
    }
}

/// The database index for one artist: its identifier and the offsets of
/// its tracks.
pub struct ArtistsDbIndex {
    pub id: u32,
    pub track_offsets: Vec<u32>,
}

} // verus!
