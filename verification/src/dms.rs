//! Finding the device's mount point in the system's mount table.
//!
//! Detecting whether the device is attached, and reading the mount table,
//! is I/O and happens outside this crate.  What is verified here is the
//! parsing: a mount-table line is a device token (non-whitespace), then
//! whitespace, then the mount point token (non-whitespace), and the mount
//! point of a device is read off the first line that starts with the
//! device's path.

use vstd::prelude::*;
use crate::strutil::{
    find_nonspace, find_space, lemma_scan_nonspace, lemma_scan_space, scan_nonspace, scan_space,
};

verus! {

/// What parsing a mount-table line yields: the device token and the mount
/// point token, when the line has that shape.
pub open spec fn spec_parse_mount_line(s: Seq<char>) -> Option<(Seq<char>, Seq<char>)> {
    let i = scan_space(s, 0);
    let j = scan_nonspace(s, i);
    if i == 0 || i >= s.len() || j >= s.len() {
        None
    } else {
        Some((s.take(i), s.subrange(j, scan_space(s, j))))
    }
}

/// Parse one mount-table line into its device and mount point tokens.
///
/// Succeeds exactly when the line starts with a non-empty non-whitespace
/// token, followed by whitespace, followed by another non-empty
/// non-whitespace token.
pub fn parse_mount_line(line: &str) -> (r: Option<(String, String)>)
    ensures
        r matches Some(p) ==> (spec_parse_mount_line(line@) matches Some(q) && p.0@ == q.0
            && p.1@ == q.1),
        r is None ==> spec_parse_mount_line(line@) is None,
{
    let n = line.unicode_len();
    let i = find_space(line, 0);
    proof {
        lemma_scan_space(line@, 0);
    }
    if i == 0 || i >= n {
        return None;
    }
    let j = find_nonspace(line, i);
    proof {
        lemma_scan_nonspace(line@, i as int);
    }
    if j >= n {
        return None;
    }
    let k = find_space(line, j);
    proof {
        lemma_scan_space(line@, j as int);
    }
    let device = line.substring_char(0, i);
    let mount = line.substring_char(j, k);
    assert(device@ =~= line@.take(i as int));
    assert(mount@ =~= line@.subrange(j as int, scan_space(line@, j as int)));
    Some((device.to_owned(), mount.to_owned()))
}

/// Whether `prefix` is a character-for-character prefix of `s`.
pub fn starts_with(s: &str, prefix: &str) -> (r: bool)
    ensures
        r == prefix@.is_prefix_of(s@),
{
    let n = s.unicode_len();
    let m = prefix.unicode_len();
    if m > n {
        return false;
    }
    let mut i: usize = 0;
    while i < m
        invariant
            n == s@.len(),
            m == prefix@.len(),
            m <= n,
            i <= m,
            forall|k: int| 0 <= k < i ==> s@[k] == prefix@[k],
        decreases m - i,
    {
        if s.get_char(i) != prefix.get_char(i) {
            assert(!prefix@.is_prefix_of(s@)) by {
                assert(s@.take(m as int)[i as int] != prefix@[i as int]);
            }
            return false;
        }
        i = i + 1;
    }
    assert(prefix@ =~= s@.take(m as int));
    true
}

/// The index of the first line that starts with the device's path, or the
/// number of lines when none does.
pub open spec fn scan_device_line(lines: Seq<Seq<char>>, device: Seq<char>, i: int) -> int
    decreases lines.len() - i,
{
    if i < 0 || i >= lines.len() {
        lines.len() as int
    } else if device.is_prefix_of(lines[i]) {
        i
    } else {
        scan_device_line(lines, device, i + 1)
    }
}

/// The mount point that the mount table gives for a device: read off the
/// first line starting with the device's path; nothing when no line does,
/// or when that first line does not parse.
pub open spec fn spec_find_mount_point(lines: Seq<Seq<char>>, device: Seq<char>) -> Option<
    Seq<char>,
> {
    let i = scan_device_line(lines, device, 0);
    if i >= lines.len() {
        None
    } else {
        match spec_parse_mount_line(lines[i]) {
            Some(p) => Some(p.1),
            None => None,
        }
    }
}

/// Find the device's mount point among the mount-table lines.
pub fn find_mount_point(device: &str, lines: &Vec<String>) -> (r: Option<String>)
    ensures
        r matches Some(m) ==> (spec_find_mount_point(lines.deep_view(), device@) matches Some(q)
            && m@ == q),
        r is None ==> spec_find_mount_point(lines.deep_view(), device@) is None,
{
    let ghost lv = lines.deep_view();
    let n = lines.len();
    let mut i: usize = 0;
    while i < n
        invariant
            n == lines@.len(),
            lv == lines.deep_view(),
            i <= n,
            scan_device_line(lv, device@, 0) == scan_device_line(lv, device@, i as int),
        decreases n - i,
    {
        assert(lv[i as int] == lines@[i as int]@);
        if starts_with(lines[i].as_str(), device) {
            assert(scan_device_line(lv, device@, i as int) == i);
            return match parse_mount_line(lines[i].as_str()) {
                Some(p) => Some(p.1),
                None => None,
            };
        }
        i = i + 1;
    }
    None
}

} // verus!
