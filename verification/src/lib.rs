//! Synchronization engine for a local media collection and a removable
//! device's media store.
//!
//! The core is pure logic over plain values: identity normalization across
//! filesystems, set diffing of two scanned libraries, a tiered change
//! detector (size, then timestamp tolerance, then content hash, with
//! timestamp self-healing), and the planning of the copy and delete
//! operations that apply a diff.  All filesystem walking, tag reading and
//! actual I/O live outside this crate and hand plain values in.

pub mod casefold;
pub mod crypto;
pub mod data;
pub mod detect;
pub mod dms;
pub mod fsync;
pub mod library;
pub mod media;
pub mod metadata;
pub mod paths;
pub mod fsutil;
pub mod stringpool;
pub mod strutil;
pub mod sync;
