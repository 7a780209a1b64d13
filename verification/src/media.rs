//! Classification of scanned paths: which files count as media files.
//!
//! A path is a media file when its extension (the part of the file name
//! after the last dot, the dot not being the file name's first character)
//! ends, case-insensitively, in `mp3`.

use vstd::prelude::*;
use crate::paths::{after_last, find_last, lemma_after_last_at, lemma_after_last_absent};

verus! {

/// The file name of a path: everything after the last separator, or the
/// whole path when it has no separator.
pub open spec fn file_name_of(p: Seq<char>) -> Seq<char> {
    after_last(p, '/')
}

/// The extension of a path, as `std`'s path handling reads it: the part of
/// the file name after its last dot, where a dot in first position (a
/// hidden file) does not count.
pub open spec fn extension_of(p: Seq<char>) -> Option<Seq<char>> {
    let name = file_name_of(p);
    if name.len() == 0 {
        None
    } else if name.drop_first().contains('.') {
        Some(after_last(name.drop_first(), '.'))
    } else {
        None
    }
}

/// An extension matches the media predicate when it ends in `m`/`M`,
/// `p`/`P`, `3`.
pub open spec fn is_mp3_extension(e: Seq<char>) -> bool {
    &&& e.len() >= 3
    &&& (e[e.len() - 3] == 'm' || e[e.len() - 3] == 'M')
    &&& (e[e.len() - 2] == 'p' || e[e.len() - 2] == 'P')
    &&& e[e.len() - 1] == '3'
}

/// A path names a media file when it has an extension and that extension
/// matches the media predicate.
pub open spec fn spec_is_media_path(p: Seq<char>) -> bool {
    match extension_of(p) {
        Some(e) => is_mp3_extension(e),
        None => false,
    }
}

/// Decide whether `path` names a media file.
pub fn is_media_filename(path: &str) -> (r: bool)
    ensures
        r == spec_is_media_path(path@),
{
    let n = path.unicode_len();
    let start: usize = match find_last(path, '/') {
        Some(j) => {
            proof {
                lemma_after_last_at(path@, '/', j as int);
            }
            j + 1
        },
        None => {
            proof {
                lemma_after_last_absent(path@, '/');
            }
            0
        },
    };
    assert(file_name_of(path@) =~= path@.skip(start as int));
    if start == n {
        return false;
    }
    let name = path.substring_char(start, n);
    assert(name@ =~= file_name_of(path@));
    let name_len = n - start;
    assert(name@.len() == name_len);
    let tail = name.substring_char(1, name_len);
    assert(tail@ =~= file_name_of(path@).drop_first());
    let ext: &str = match find_last(tail, '.') {
        Some(k) => {
            proof {
                lemma_after_last_at(tail@, '.', k as int);
            }
            tail.substring_char(k + 1, name_len - 1)
        },
        None => {
            proof {
                lemma_after_last_absent(tail@, '.');
            }
            return false;
        },
    };
    assert(ext@ =~= after_last(file_name_of(path@).drop_first(), '.'));
    let el = ext.unicode_len();
    if el < 3 {
        return false;
    }
    let c0 = ext.get_char(el - 3);
    let c1 = ext.get_char(el - 2);
    let c2 = ext.get_char(el - 1);
    (c0 == 'm' || c0 == 'M') && (c1 == 'p' || c1 == 'P') && c2 == '3'
}

} // verus!
