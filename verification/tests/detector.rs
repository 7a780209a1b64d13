use phatnoise::crypto::Sha256Digest;
use phatnoise::detect::{hash_verdict, stat_verdict, HashVerdict, Mtime, StatInfo, StatVerdict};

fn stat(size: u64, secs: u64, nanos: u32) -> StatInfo {
    StatInfo { size, mtime: Mtime { secs, nanos } }
}

#[test]
fn test_stat_verdict_size_differs() {
    // differing sizes are always stale, whatever the times say
    let l = stat(100, 1_000, 0);
    let r = stat(101, 1_000, 0);
    assert_eq!(stat_verdict(&l, &r), StatVerdict::Stale);
}

#[test]
fn test_stat_verdict_within_tolerance() {
    // same size, mtimes differ by 1 second: fresh without hashing
    let l = stat(100, 1_000, 0);
    let r = stat(100, 1_001, 0);
    assert_eq!(stat_verdict(&l, &r), StatVerdict::Fresh);

    // the tolerance is three whole seconds, in either direction
    let r3 = stat(100, 1_003, 0);
    assert_eq!(stat_verdict(&l, &r3), StatVerdict::Fresh);
    assert_eq!(stat_verdict(&r3, &l), StatVerdict::Fresh);

    // 3.9 seconds still counts as 3 whole seconds
    let r39 = stat(100, 1_003, 900_000_000);
    assert_eq!(stat_verdict(&l, &r39), StatVerdict::Fresh);
}

#[test]
fn test_stat_verdict_beyond_tolerance() {
    // same size, mtimes differ by 10 seconds: the hashes must decide
    let l = stat(100, 1_000, 0);
    let r = stat(100, 1_010, 0);
    assert_eq!(stat_verdict(&l, &r), StatVerdict::NeedHash);
    assert_eq!(stat_verdict(&r, &l), StatVerdict::NeedHash);
}

#[test]
fn test_stat_verdict_nanosecond_borrow() {
    // 4 seconds minus a nanosecond is 3 whole seconds: fresh
    let l = stat(100, 1_000, 500_000_000);
    let r = stat(100, 1_004, 499_999_999);
    assert_eq!(stat_verdict(&l, &r), StatVerdict::Fresh);

    // exactly 4 seconds is beyond the tolerance
    let r4 = stat(100, 1_004, 500_000_000);
    assert_eq!(stat_verdict(&l, &r4), StatVerdict::NeedHash);
}

#[test]
fn test_hash_verdict() {
    let a = Sha256Digest::new([7u8; 32]);
    let b = Sha256Digest::new([7u8; 32]);
    let mut other = [7u8; 32];
    other[31] = 8;
    let c = Sha256Digest::new(other);

    // equal digests: fresh, and the device mtime is to be healed
    assert_eq!(hash_verdict(&a, &b), HashVerdict::FreshHeal);
    // differing digests: stale
    assert_eq!(hash_verdict(&a, &c), HashVerdict::Stale);
}

#[test]
fn test_detector_converges_after_heal() {
    // byte-identical files, mtimes 10 seconds apart: one hash round
    // finds them equal, the device mtime is rewritten, and the next
    // run stops at the stat tier
    let l = stat(100, 1_000, 0);
    let r = stat(100, 1_010, 0);
    assert_eq!(stat_verdict(&l, &r), StatVerdict::NeedHash);

    let dl = Sha256Digest::new([1u8; 32]);
    let dr = Sha256Digest::new([1u8; 32]);
    assert_eq!(hash_verdict(&dl, &dr), HashVerdict::FreshHeal);

    let healed = StatInfo { size: r.size, mtime: l.mtime };
    assert_eq!(stat_verdict(&l, &healed), StatVerdict::Fresh);
}

#[test]
fn test_detector_differing_bytes_stale() {
    // same size, mtimes 10 seconds apart, differing bytes: stale
    let l = stat(100, 1_000, 0);
    let r = stat(100, 1_010, 0);
    assert_eq!(stat_verdict(&l, &r), StatVerdict::NeedHash);

    let dl = Sha256Digest::new([1u8; 32]);
    let mut other = [1u8; 32];
    other[0] = 2;
    let dr = Sha256Digest::new(other);
    assert_eq!(hash_verdict(&dl, &dr), HashVerdict::Stale);
}

#[test]
fn test_digest_equals_and_hex() {
    let a = Sha256Digest::new([0u8; 32]);
    let b = Sha256Digest::new([0u8; 32]);
    assert!(a.equals(&b));

    let mut bytes = [0u8; 32];
    bytes[0] = 0xab;
    bytes[1] = 0x01;
    bytes[31] = 0xff;
    let c = Sha256Digest::new(bytes);
    assert!(!a.equals(&c));
    assert_eq!(
        c.to_hex(),
        "ab010000000000000000000000000000000000000000000000000000000000ff"
    );
    assert_eq!(a.to_hex(), "0".repeat(64));
}
