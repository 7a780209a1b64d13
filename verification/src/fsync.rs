//! A scanned media file and its cross-filesystem identity.
//!
//! The identity of a file is computed from its location relative to the
//! scanned base directory: characters the device's filesystem cannot hold
//! are dropped (the colon), characters that stand for spacing are replaced
//! by a plain space (the tab), and the rest is Unicode case folded, so that
//! the same logical file scanned on either side yields the same identity
//! string.

use vstd::prelude::*;
use vstd::string::StringExecFns;
use crate::casefold::{fold_char, fold_of, folded, lemma_fold_of_push, lemma_folded_fixed};
use crate::media::spec_is_media_path;
use crate::paths::{path_descends, rel_of, relative_to};
use crate::strutil::push_chars;

verus! {

/// One file of a scanned media library.
pub struct MediaFile {
    pub path: String,
    pub base: String,
}

/// The identity-relevant rewriting of one relative-path character: the
/// colon is dropped, the tab becomes a space, everything else stays.
pub open spec fn media_scrub(s: Seq<char>) -> Seq<char>
    decreases s.len(),
{
    if s.len() == 0 {
        Seq::empty()
    } else {
        let rest = media_scrub(s.drop_last());
        if s.last() == ':' {
            rest
        } else if s.last() == '\t' {
            rest.push(' ')
        } else {
            rest.push(s.last())
        }
    }
}

/// The identity of a file at `path` scanned under `base`: its relative
/// location, scrubbed and case folded.
pub open spec fn media_id_of(path: Seq<char>, base: Seq<char>) -> Seq<char> {
    fold_of(media_scrub(rel_of(path, base)))
}

impl MediaFile {
    /// A media file's path must lie strictly below its base directory.
    pub open spec fn wf(&self) -> bool {
        path_descends(self.path@, self.base@)
    }

    pub fn new(path: &str, base: &str) -> (r: MediaFile)
        requires
            path_descends(path@, base@),
        ensures
            r.path@ == path@,
            r.base@ == base@,
            r.wf(),
    {
        MediaFile { path: path.to_owned(), base: base.to_owned() }
    }

    /// The cross-filesystem identity of this file.  The result is folded,
    /// so another round of case folding leaves it unchanged.
    pub fn id(&self) -> (r: String)
        requires
            self.wf(),
        ensures
            r@ == media_id_of(self.path@, self.base@),
            folded(r@),
            fold_of(r@) == r@,
    {
        let rel = match relative_to(self.path.as_str(), self.base.as_str()) {
            Ok(s) => s,
            Err(_) => {
                proof {
                    assert(false);
                }
                String::new()
            },
        };
        let n = rel.as_str().unicode_len();
        let mut out = String::new();
        let mut i: usize = 0;
        while i < n
            invariant
                n == rel@.len(),
                i <= n,
                out@ == fold_of(media_scrub(rel@.take(i as int))),
                folded(out@),
            decreases n - i,
        {
            let c = rel.as_str().get_char(i);
            proof {
                assert(rel@.take(i + 1 as int).drop_last() =~= rel@.take(i as int));
                assert(rel@.take(i + 1 as int).last() == c);
            }
            if c == ':' {
            } else if c == '\t' {
                let f = fold_char(' ');
                proof {
                    lemma_fold_of_push(media_scrub(rel@.take(i as int)), ' ');
                }
                push_chars(&mut out, &f);
            } else {
                let f = fold_char(c);
                proof {
                    lemma_fold_of_push(media_scrub(rel@.take(i as int)), c);
                }
                push_chars(&mut out, &f);
            }
            i = i + 1;
        }
        assert(rel@.take(n as int) =~= rel@);
        proof {
            lemma_folded_fixed(out@);
        }
        out
    }
}

/// Decide whether `path` names a media file; the same predicate as
/// [`crate::media::is_media_filename`].
pub fn is_media_file(path: &str) -> (r: bool)
    ensures
        r == spec_is_media_path(path@),
{
    crate::media::is_media_filename(path)
}

/// A path on the device is allowed unless its location relative to the
/// device root case folds to one of the device's reserved data
/// directories.
pub open spec fn spec_allowed_dms_path(path: Seq<char>, base: Seq<char>) -> bool {
    let folded_rel = fold_of(rel_of(path, base));
    folded_rel != "profiles"@ && folded_rel != "tts"@
}

/// Decide whether a path under the device root belongs to the media
/// walk, or lies in one of the device's reserved data directories
/// (`profiles`, `tts`), which are excluded entirely.
pub fn is_allowed_dms_path(base: &str, path: &str) -> (r: bool)
    requires
        path_descends(path@, base@),
    ensures
        r == spec_allowed_dms_path(path@, base@),
{
    let rel = match relative_to(path, base) {
        Ok(s) => s,
        Err(_) => {
            proof {
                assert(false);
            }
            String::new()
        },
    };
    let folded = crate::casefold::fold_str(rel.as_str());
    let profiles = String::from_str("profiles");
    let tts = String::from_str("tts");
    !(folded == profiles) && !(folded == tts)
}

} // verus!
