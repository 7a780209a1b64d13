//! The tiered change detector.
//!
//! For a candidate pair — one local file, one device file, same identity —
//! the detector decides whether the device copy is stale, from cheap to
//! expensive: differing sizes mean stale; equal sizes with modification
//! times within a small tolerance mean fresh; otherwise the content hashes
//! decide, and when they agree the device file's modification time is to be
//! rewritten to the local one (the self-heal), so the next run stops at the
//! timestamp tier.
//!
//! Reading sizes, times and hashes is I/O and happens outside this crate;
//! the decisions on those plain values are verified here.

use vstd::prelude::*;
use crate::crypto::Sha256Digest;

verus! {

/// Modification times within this many whole seconds of each other count
/// as equal, absorbing coarse filesystem timestamp resolution and small
/// clock skew.
pub const MTIME_TOLERANCE_SECS: u64 = 3;

/// A file's modification time: seconds and nanoseconds since an epoch.
#[derive(Clone, Copy, Debug, PartialEq, Eq, Structural)]
pub struct Mtime {
    pub secs: u64,
    pub nanos: u32,
}

/// What one stat call reports of a file: its size and modification time.
#[derive(Clone, Copy, Debug, PartialEq, Eq, Structural)]
pub struct StatInfo {
    pub size: u64,
    pub mtime: Mtime,
}

/// `a` is no later than `b`.
pub open spec fn mtime_le(a: Mtime, b: Mtime) -> bool {
    a.secs < b.secs || (a.secs == b.secs && a.nanos <= b.nanos)
}

/// The elapsed whole seconds from `b` up to `a`, for `b` no later than
/// `a`: the seconds difference, less one when the nanoseconds still have
/// to borrow.
pub open spec fn diff_whole_secs(a: Mtime, b: Mtime) -> int {
    if a.nanos >= b.nanos {
        a.secs - b.secs
    } else {
        a.secs - b.secs - 1
    }
}

/// The absolute distance of two modification times, in whole seconds.
pub open spec fn skew_secs(a: Mtime, b: Mtime) -> int {
    if mtime_le(b, a) {
        diff_whole_secs(a, b)
    } else {
        diff_whole_secs(b, a)
    }
}

/// The verdict of the detector's cheap tiers.
#[derive(Clone, Copy, Debug, PartialEq, Eq, Structural)]
pub enum StatVerdict {
    /// The device copy is stale: the sizes differ.
    Stale,
    /// The device copy is fresh: sizes equal, times within tolerance.
    Fresh,
    /// The cheap tiers cannot decide: the content hashes must.
    NeedHash,
}

/// What the stat tier decides for a candidate pair.
pub open spec fn spec_stat_verdict(local: StatInfo, device: StatInfo) -> StatVerdict {
    if local.size != device.size {
        StatVerdict::Stale
    } else if skew_secs(local.mtime, device.mtime) <= MTIME_TOLERANCE_SECS {
        StatVerdict::Fresh
    } else {
        StatVerdict::NeedHash
    }
}

/// The device stat as it stands after the self-heal: same size, the local
/// file's modification time.
pub open spec fn healed(device: StatInfo, local: StatInfo) -> StatInfo {
    StatInfo { size: device.size, mtime: local.mtime }
}

/// Decide the cheap tiers for a candidate pair from its two stat results.
pub fn stat_verdict(local: &StatInfo, device: &StatInfo) -> (v: StatVerdict)
    ensures
        v == spec_stat_verdict(*local, *device),
{
    if local.size != device.size {
        return StatVerdict::Stale;
    }
    let (hi, lo) = if device.mtime.secs < local.mtime.secs || (device.mtime.secs
        == local.mtime.secs && device.mtime.nanos <= local.mtime.nanos) {
        (local.mtime, device.mtime)
    } else {
        (device.mtime, local.mtime)
    };
    let d: u64 = if hi.nanos >= lo.nanos {
        hi.secs - lo.secs
    } else {
        hi.secs - lo.secs - 1
    };
    if d <= MTIME_TOLERANCE_SECS {
        StatVerdict::Fresh
    } else {
        StatVerdict::NeedHash
    }
}

/// What the hash tier decides: the device copy is stale exactly when the
/// two content digests differ.
pub open spec fn spec_hash_stale(local: Seq<u8>, device: Seq<u8>) -> bool {
    local != device
}

/// The outcome of the hash tier.
#[derive(Clone, Copy, Debug, PartialEq, Eq, Structural)]
pub enum HashVerdict {
    /// The digests agree: the copy is fresh, and the device file's
    /// modification time should be rewritten to the local one.
    FreshHeal,
    /// The digests differ: the copy is stale.
    Stale,
}

/// Decide the hash tier for a candidate pair from its two content digests.
pub fn hash_verdict(local: &Sha256Digest, device: &Sha256Digest) -> (v: HashVerdict)
    ensures
        v == HashVerdict::Stale <==> spec_hash_stale(local@, device@),
        v == HashVerdict::FreshHeal <==> !spec_hash_stale(local@, device@),
{
    if local.equals(device) {
        HashVerdict::FreshHeal
    } else {
        HashVerdict::Stale
    }
}

/// A modification time is never skewed against itself.
pub proof fn lemma_skew_self(m: Mtime)
    ensures
        skew_secs(m, m) == 0,
{
}

/// Detector convergence for byte-identical files: with equal sizes the
/// stat tier never says stale; when it cannot decide, the hash tier finds
/// the (equal) digests equal, keeps the pair fresh and heals the device
/// file's modification time; and against the healed stat the stat tier
/// says fresh at once.  So a byte-identical pair costs at most one hash
/// computation, whatever the initial timestamp skew, and none after that.
pub proof fn lemma_detector_converges(local: StatInfo, device: StatInfo)
    requires
        local.size == device.size,
    ensures
        spec_stat_verdict(local, device) != StatVerdict::Stale,
        spec_stat_verdict(local, healed(device, local)) == StatVerdict::Fresh,
        forall|d: Seq<u8>| !spec_hash_stale(d, d),
{
    lemma_skew_self(local.mtime);
}

} // verus!
