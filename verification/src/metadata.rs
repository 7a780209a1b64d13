//! Track metadata and its orderings.
//!
//! Reading tags out of audio files is done by outside libraries and
//! happens beyond this crate; the values they hand back live here.  What
//! is verified: the sortable forms (a leading article and its whitespace
//! are dropped), the artist and genre orderings built from them, track
//! number parsing, and the CSV line in the device's database format.

use vstd::prelude::*;
use core::cmp::Ordering;
use crate::paths::{path_descends, path_join, rel_of};
use crate::strutil::{is_space, is_space_char, find_nonspace, lemma_scan_nonspace, scan_nonspace, push_char};

verus! {

/// The metadata of one media file.
pub struct MediaMetadata {
    pub path: String,
    pub base: String,
    pub artist: String,
    pub album: String,
    pub genre: String,
    pub title: String,
    pub track_number: u16,
    pub duration: u64,
}

// ---------------------------------------------------------------------------
// Sortable forms
// ---------------------------------------------------------------------------

/// The length of a leading article — `a`, `an` or `the`, in any letter
/// case, followed by whitespace — or zero when the text does not start
/// with one.
pub open spec fn article_len(s: Seq<char>) -> int {
    if s.len() >= 2 && (s[0] == 'a' || s[0] == 'A') && is_space(s[1]) {
        1
    } else if s.len() >= 3 && (s[0] == 'a' || s[0] == 'A') && (s[1] == 'n' || s[1] == 'N')
        && is_space(s[2]) {
        2
    } else if s.len() >= 4 && (s[0] == 't' || s[0] == 'T') && (s[1] == 'h' || s[1] == 'H') && (
    s[2] == 'e' || s[2] == 'E') && is_space(s[3]) {
        3
    } else {
        0
    }
}

/// The sortable form of a name: a leading article and the whitespace run
/// after it are dropped; text without a leading article is unchanged.
pub open spec fn sortable_of(s: Seq<char>) -> Seq<char> {
    let w = article_len(s);
    if w == 0 {
        s
    } else {
        s.skip(scan_nonspace(s, w))
    }
}

/// Drop a leading article — `a`, `an` or `the` and the whitespace after
/// it — from a name.
pub fn strip_article(s: &str) -> (r: String)
    ensures
        r@ == sortable_of(s@),
{
    let n = s.unicode_len();
    let w: usize = if n >= 2 && (s.get_char(0) == 'a' || s.get_char(0) == 'A') && is_space_char(
        s.get_char(1),
    ) {
        1
    } else if n >= 3 && (s.get_char(0) == 'a' || s.get_char(0) == 'A') && (s.get_char(1) == 'n'
        || s.get_char(1) == 'N') && is_space_char(s.get_char(2)) {
        2
    } else if n >= 4 && (s.get_char(0) == 't' || s.get_char(0) == 'T') && (s.get_char(1) == 'h'
        || s.get_char(1) == 'H') && (s.get_char(2) == 'e' || s.get_char(2) == 'E')
        && is_space_char(s.get_char(3)) {
        3
    } else {
        0
    };
    assert(w == article_len(s@));
    if w == 0 {
        return s.to_owned();
    }
    let start = find_nonspace(s, w);
    proof {
        lemma_scan_nonspace(s@, w as int);
    }
    let r = s.substring_char(start, n);
    assert(r@ =~= sortable_of(s@));
    r.to_owned()
}

// ---------------------------------------------------------------------------
// Ordering
// ---------------------------------------------------------------------------

/// Lexicographic comparison of two character sequences by code point; a
/// proper prefix comes first.
pub open spec fn lex_cmp(a: Seq<char>, b: Seq<char>) -> Ordering
    decreases a.len(),
{
    if a.len() == 0 && b.len() == 0 {
        Ordering::Equal
    } else if a.len() == 0 {
        Ordering::Less
    } else if b.len() == 0 {
        Ordering::Greater
    } else if (a[0] as u32) < (b[0] as u32) {
        Ordering::Less
    } else if (a[0] as u32) > (b[0] as u32) {
        Ordering::Greater
    } else {
        lex_cmp(a.drop_first(), b.drop_first())
    }
}

/// Compare two strings lexicographically by code point.
pub fn str_cmp(a: &str, b: &str) -> (r: Ordering)
    ensures
        r == lex_cmp(a@, b@),
{
    let al = a.unicode_len();
    let bl = b.unicode_len();
    let mut i: usize = 0;
    assert(a@.skip(0) =~= a@);
    assert(b@.skip(0) =~= b@);
    while i < al && i < bl
        invariant
            al == a@.len(),
            bl == b@.len(),
            i <= al,
            i <= bl,
            lex_cmp(a@, b@) == lex_cmp(a@.skip(i as int), b@.skip(i as int)),
        decreases al - i,
    {
        let ca = a.get_char(i);
        let cb = b.get_char(i);
        assert(a@.skip(i as int)[0] == ca && b@.skip(i as int)[0] == cb);
        if (ca as u32) < (cb as u32) {
            return Ordering::Less;
        }
        if (ca as u32) > (cb as u32) {
            return Ordering::Greater;
        }
        proof {
            assert(a@.skip(i as int).drop_first() =~= a@.skip(i + 1 as int));
            assert(b@.skip(i as int).drop_first() =~= b@.skip(i + 1 as int));
        }
        i = i + 1;
    }
    assert(a@.skip(i as int).len() == 0 || b@.skip(i as int).len() == 0);
    if al == bl {
        assert(a@.skip(i as int).len() == 0 && b@.skip(i as int).len() == 0);
        Ordering::Equal
    } else if al < bl {
        assert(a@.skip(i as int).len() == 0 && b@.skip(i as int).len() > 0);
        Ordering::Less
    } else {
        assert(a@.skip(i as int).len() > 0 && b@.skip(i as int).len() == 0);
        Ordering::Greater
    }
}

/// The second comparison decides when the first is a tie.
pub open spec fn then_of(a: Ordering, b: Ordering) -> Ordering {
    if a == Ordering::Equal {
        b
    } else {
        a
    }
}

/// Numeric comparison of two track numbers.
pub open spec fn cmp_u16(a: u16, b: u16) -> Ordering {
    if a < b {
        Ordering::Less
    } else if a == b {
        Ordering::Equal
    } else {
        Ordering::Greater
    }
}

/// The artist ordering: by sortable artist, then sortable album, then
/// track number, then sortable title, then sortable genre.
pub open spec fn spec_by_artist(x: MediaMetadata, y: MediaMetadata) -> Ordering {
    then_of(
        lex_cmp(sortable_of(x.artist@), sortable_of(y.artist@)),
        then_of(
            lex_cmp(sortable_of(x.album@), sortable_of(y.album@)),
            then_of(
                cmp_u16(x.track_number, y.track_number),
                then_of(
                    lex_cmp(sortable_of(x.title@), sortable_of(y.title@)),
                    lex_cmp(sortable_of(x.genre@), sortable_of(y.genre@)),
                ),
            ),
        ),
    )
}

/// The genre ordering: by sortable genre, then sortable artist, then
/// sortable album, then track number, then sortable title.
pub open spec fn spec_by_genre(x: MediaMetadata, y: MediaMetadata) -> Ordering {
    then_of(
        lex_cmp(sortable_of(x.genre@), sortable_of(y.genre@)),
        then_of(
            lex_cmp(sortable_of(x.artist@), sortable_of(y.artist@)),
            then_of(
                lex_cmp(sortable_of(x.album@), sortable_of(y.album@)),
                then_of(
                    cmp_u16(x.track_number, y.track_number),
                    lex_cmp(sortable_of(x.title@), sortable_of(y.title@)),
                ),
            ),
        ),
    )
}

// ---------------------------------------------------------------------------
// Decimal rendering
// ---------------------------------------------------------------------------

/// The decimal digit character for a value below ten.
pub open spec fn digit_char(n: int) -> char {
    seq!['0', '1', '2', '3', '4', '5', '6', '7', '8', '9'][n]
}

/// The decimal rendering of a non-negative number, most significant digit
/// first, without leading zeros (zero renders as `0`).
pub open spec fn dec_of(n: int) -> Seq<char>
    decreases n,
{
    if n < 10 {
        seq![digit_char(n)]
    } else {
        dec_of(n / 10).push(digit_char(n % 10))
    }
}

/// The decimal digit character for a value below ten.
fn digit_char_exec(n: u64) -> (r: char)
    requires
        n < 10,
    ensures
        r == digit_char(n as int),
{
    let digits: [char; 10] = ['0', '1', '2', '3', '4', '5', '6', '7', '8', '9'];
    assert(forall|k: int| 0 <= k < 10 ==> digits@[k] == digit_char(k));
    digits[n as usize]
}

/// Render a number in decimal.
pub fn u64_to_string(n: u64) -> (r: String)
    ensures
        r@ == dec_of(n as int),
{
    let mut m: u64 = n;
    let mut d: Vec<char> = Vec::new();
    while m >= 10
        invariant
            dec_of(n as int) == dec_of(m as int) + d@.reverse(),
        decreases m,
    {
        let ghost before = d@;
        d.push(digit_char_exec(m % 10));
        assert(d@.reverse() =~= seq![digit_char(m as int % 10)] + before.reverse());
        m = m / 10;
    }
    let ghost before = d@;
    d.push(digit_char_exec(m));
    assert(d@.reverse() =~= seq![digit_char(m as int)] + before.reverse());
    assert(dec_of(n as int) == d@.reverse());
    let k = d.len();
    let mut r = String::new();
    let mut i: usize = k;
    while i > 0
        invariant
            k == d@.len(),
            i <= k,
            r@ == d@.skip(i as int).reverse(),
        decreases i,
    {
        let ghost before_r = r@;
        push_char(&mut r, d[i - 1]);
        assert(r@ =~= d@.skip(i - 1 as int).reverse());
        i = i - 1;
    }
    assert(d@.skip(0) =~= d@);
    r
}

// ---------------------------------------------------------------------------
// Track number parsing
// ---------------------------------------------------------------------------

/// A decimal digit.
pub open spec fn is_digit(c: char) -> bool {
    '0' as u32 <= c as u32 && c as u32 <= '9' as u32
}

/// A non-empty sequence of decimal digits.
pub open spec fn all_digits(s: Seq<char>) -> bool {
    s.len() > 0 && forall|i: int| 0 <= i < s.len() ==> is_digit(#[trigger] s[i])
}

/// The value of a digit sequence read in decimal.
pub open spec fn digits_val(s: Seq<char>) -> int
    decreases s.len(),
{
    if s.len() == 0 {
        0
    } else {
        digits_val(s.drop_last()) * 10 + (s.last() as u32 - '0' as u32)
    }
}

/// The first position of a slash, or the length when there is none.
pub open spec fn scan_slash(s: Seq<char>, i: int) -> int
    decreases s.len() - i,
{
    if i < 0 || i >= s.len() {
        s.len() as int
    } else if s[i] == '/' {
        i
    } else {
        scan_slash(s, i + 1)
    }
}

/// The track number a tag's track text denotes: the text is digits,
/// optionally followed by a slash and the digit-rendered total, and the
/// value is that of the digits before the slash.
pub open spec fn spec_parse_track(s: Seq<char>) -> Option<int> {
    let j = scan_slash(s, 0);
    if j >= s.len() {
        if all_digits(s) {
            Some(digits_val(s))
        } else {
            None
        }
    } else {
        if all_digits(s.take(j)) && all_digits(s.skip(j + 1)) {
            Some(digits_val(s.take(j)))
        } else {
            None
        }
    }
}

proof fn lemma_digits_val_nonneg(s: Seq<char>)
    requires
        forall|i: int| 0 <= i < s.len() ==> is_digit(#[trigger] s[i]),
    ensures
        digits_val(s) >= 0,
    decreases s.len(),
{
    if s.len() > 0 {
        assert(forall|i: int|
            0 <= i < s.drop_last().len() ==> is_digit(#[trigger] s.drop_last()[i]));
        lemma_digits_val_nonneg(s.drop_last());
    }
}

/// Each further digit can only grow the value.
proof fn lemma_digits_val_grows(s: Seq<char>, i: int)
    requires
        0 <= i <= s.len(),
        forall|k: int| 0 <= k < s.len() ==> is_digit(#[trigger] s[k]),
    ensures
        digits_val(s) >= digits_val(s.take(i)),
    decreases s.len() - i,
{
    if i < s.len() {
        let t = s.take(i + 1);
        assert(t.drop_last() =~= s.take(i));
        assert(forall|k: int| 0 <= k < t.len() ==> is_digit(#[trigger] t[k]));
        assert(forall|k: int| 0 <= k < s.take(i).len() ==> is_digit(#[trigger] s.take(i)[k]));
        lemma_digits_val_nonneg(s.take(i));
        assert(digits_val(t) == digits_val(s.take(i)) * 10 + (t.last() as u32 - '0' as u32));
        assert(digits_val(t) >= digits_val(s.take(i)));
        lemma_digits_val_grows(s, i + 1);
        assert(s.take(s.len() as int) =~= s);
    } else {
        assert(s.take(i) =~= s);
    }
}

/// Read the value of a digit run `s[from..to]`, refusing values that do
/// not fit a track number.
fn digits_value(s: &str, from: usize, to: usize) -> (r: Option<u16>)
    requires
        from < to <= s@.len(),
        forall|k: int| from <= k < to ==> is_digit(#[trigger] s@[k]),
    ensures
        r matches Some(v) ==> v == digits_val(s@.subrange(from as int, to as int))
            && digits_val(s@.subrange(from as int, to as int)) <= u16::MAX,
        r is None ==> digits_val(s@.subrange(from as int, to as int)) > u16::MAX,
{
    let ghost whole = s@.subrange(from as int, to as int);
    let mut acc: u32 = 0;
    let mut i: usize = from;
    while i < to
        invariant
            from <= i <= to <= s@.len(),
            whole == s@.subrange(from as int, to as int),
            forall|k: int| from <= k < to ==> is_digit(#[trigger] s@[k]),
            acc == digits_val(whole.take(i - from as int)),
            acc <= u16::MAX,
        decreases to - i,
    {
        let c = s.get_char(i);
        assert(is_digit(c)) by {
            assert(c == s@[i as int]);
        }
        let d: u32 = c as u32 - '0' as u32;
        proof {
            assert(whole.take(i + 1 - from as int).drop_last() =~= whole.take(i - from as int));
            assert(whole.take(i + 1 - from as int).last() == s@[i as int]);
        }
        if acc > 6553 || (acc == 6553 && d > 5) {
            proof {
                assert(forall|k: int| 0 <= k < whole.len() ==> is_digit(#[trigger] whole[k]));
                lemma_digits_val_grows(whole, i + 1 - from as int);
                assert(whole.take(whole.len() as int) =~= whole);
            }
            return None;
        }
        acc = acc * 10 + d;
        i = i + 1;
    }
    assert(whole.take(to - from as int) =~= whole);
    Some(acc as u16)
}

/// Parse a tag's track text.
///
/// Succeeds exactly when the text is a run of digits, optionally followed
/// by a slash and another run of digits, and the leading run's value fits
/// a track number; the value is the leading run's.
pub fn parse_track_number(s: &str) -> (r: Option<u16>)
    ensures
        r matches Some(v) ==> (spec_parse_track(s@) matches Some(n) && n == v && n <= u16::MAX),
        r is None ==> (spec_parse_track(s@) is None || (spec_parse_track(s@) matches Some(n) && n
            > u16::MAX)),
{
    let n = s.unicode_len();
    let j = find_slash(s);
    // the digits before the slash (or the whole text)
    if j == 0 {
        // empty leading run: not a track text
        if n == 0 {
            assert(!all_digits(s@));
            return None;
        }
        assert(s@[0] == '/');
        assert(!all_digits(s@.take(0)));
        return None;
    }
    let mut k: usize = 0;
    while k < j
        invariant
            n == s@.len(),
            j == scan_slash(s@, 0),
            j <= n,
            j < n ==> s@[j as int] == '/',
            k <= j,
            forall|m: int| 0 <= m < k ==> is_digit(#[trigger] s@[m]),
        decreases j - k,
    {
        if !is_digit_char(s.get_char(k)) {
            assert(!is_digit(s@[k as int]));
            if j < n {
                assert(!all_digits(s@.take(j as int))) by {
                    assert(s@.take(j as int)[k as int] == s@[k as int]);
                }
            } else {
                proof {
                    assert(j == n);
                    assert(scan_slash(s@, 0) == n);
                    assert(!is_digit(s@[k as int]));
                    assert(!all_digits(s@));
                    assert(spec_parse_track(s@) is None);
                }
            }
            return None;
        }
        k = k + 1;
    }
    if j < n {
        // a slash: the rest must be digits too
        if j + 1 >= n {
            // nothing after the slash
            assert(s@.skip(j + 1 as int).len() == 0);
            assert(!all_digits(s@.skip(j + 1 as int)));
            return None;
        }
        let mut m: usize = j + 1;
        while m < n
            invariant
                n == s@.len(),
                j == scan_slash(s@, 0),
                s@[j as int] == '/',
                j + 1 < n,
                j + 1 <= m <= n,
                forall|q: int| j + 1 <= q < m ==> is_digit(#[trigger] s@[q]),
            decreases n - m,
        {
            if !is_digit_char(s.get_char(m)) {
                proof {
                    assert(!is_digit(s@[m as int]));
                    assert(s@.skip(j + 1 as int)[m - j - 1 as int] == s@[m as int]);
                    assert(!all_digits(s@.skip(j + 1 as int)));
                    assert(spec_parse_track(s@) is None);
                }
                return None;
            }
            m = m + 1;
        }
        assert(all_digits(s@.skip(j + 1 as int))) by {
            assert(forall|q: int|
                0 <= q < s@.skip(j + 1 as int).len() ==> #[trigger] s@.skip(j + 1 as int)[q]
                    == s@[q + j + 1]);
        }
        assert(all_digits(s@.take(j as int))) by {
            assert(forall|q: int|
                0 <= q < j ==> #[trigger] s@.take(j as int)[q] == s@[q]);
        }
        let v = digits_value(s, 0, j);
        assert(s@.subrange(0, j as int) == s@.take(j as int));
        v
    } else {
        assert(all_digits(s@)) by {
            assert(forall|q: int| 0 <= q < j ==> is_digit(#[trigger] s@[q]));
        }
        let v = digits_value(s, 0, j);
        assert(s@.subrange(0, j as int) =~= s@);
        v
    }
}

/// A decimal digit.
fn is_digit_char(c: char) -> (r: bool)
    ensures
        r == is_digit(c),
{
    ('0' as u32) <= (c as u32) && (c as u32) <= ('9' as u32)
}

/// The position of the first slash, or the length when there is none.
fn find_slash(s: &str) -> (r: usize)
    ensures
        r == scan_slash(s@, 0),
        r <= s@.len(),
        r < s@.len() ==> s@[r as int] == '/',
{
    let n = s.unicode_len();
    let mut i: usize = 0;
    while i < n
        invariant
            n == s@.len(),
            i <= n,
            scan_slash(s@, 0) == scan_slash(s@, i as int),
        decreases n - i,
    {
        if s.get_char(i) == '/' {
            return i;
        }
        i = i + 1;
    }
    i
}

// ---------------------------------------------------------------------------
// The metadata record
// ---------------------------------------------------------------------------

impl MediaMetadata {
    /// A record's path must lie strictly below its base directory.
    pub open spec fn wf(&self) -> bool {
        path_descends(self.path@, self.base@)
    }

    /// Assemble a record from the plain values a tag reader produced.
    pub fn new(
        path: &str,
        base: &str,
        artist: String,
        album: String,
        genre: String,
        title: String,
        track_number: u16,
        duration: u64,
    ) -> (r: MediaMetadata)
        requires
            path_descends(path@, base@),
        ensures
            r.path@ == path@,
            r.base@ == base@,
            r.artist == artist,
            r.album == album,
            r.genre == genre,
            r.title == title,
            r.track_number == track_number,
            r.duration == duration,
            r.wf(),
    {
        MediaMetadata {
            path: path.to_owned(),
            base: base.to_owned(),
            artist,
            album,
            genre,
            title,
            track_number,
            duration,
        }
    }

    /// The track's artist in sortable form.
    pub fn artist_sortable(&self) -> (r: String)
        ensures
            r@ == sortable_of(self.artist@),
    {
        strip_article(self.artist.as_str())
    }

    /// The track's album in sortable form.
    pub fn album_sortable(&self) -> (r: String)
        ensures
            r@ == sortable_of(self.album@),
    {
        strip_article(self.album.as_str())
    }

    /// The track's genre in sortable form.
    pub fn genre_sortable(&self) -> (r: String)
        ensures
            r@ == sortable_of(self.genre@),
    {
        strip_article(self.genre.as_str())
    }

    /// The track's title in sortable form.
    pub fn title_sortable(&self) -> (r: String)
        ensures
            r@ == sortable_of(self.title@),
    {
        strip_article(self.title.as_str())
    }

    /// Order two tracks by artist, album, track number, title, genre.
    pub fn by_artist(this: &Self, that: &Self) -> (r: Ordering)
        ensures
            r == spec_by_artist(*this, *that),
    {
        let c = str_cmp(this.artist_sortable().as_str(), that.artist_sortable().as_str());
        if !matches!(c, Ordering::Equal) {
            return c;
        }
        let c = str_cmp(this.album_sortable().as_str(), that.album_sortable().as_str());
        if !matches!(c, Ordering::Equal) {
            return c;
        }
        if this.track_number < that.track_number {
            return Ordering::Less;
        }
        if this.track_number > that.track_number {
            return Ordering::Greater;
        }
        let c = str_cmp(this.title_sortable().as_str(), that.title_sortable().as_str());
        if !matches!(c, Ordering::Equal) {
            return c;
        }
        str_cmp(this.genre_sortable().as_str(), that.genre_sortable().as_str())
    }

    /// Order two tracks by genre, artist, album, track number, title.
    pub fn by_genre(this: &Self, that: &Self) -> (r: Ordering)
        ensures
            r == spec_by_genre(*this, *that),
    {
        let c = str_cmp(this.genre_sortable().as_str(), that.genre_sortable().as_str());
        if !matches!(c, Ordering::Equal) {
            return c;
        }
        let c = str_cmp(this.artist_sortable().as_str(), that.artist_sortable().as_str());
        if !matches!(c, Ordering::Equal) {
            return c;
        }
        let c = str_cmp(this.album_sortable().as_str(), that.album_sortable().as_str());
        if !matches!(c, Ordering::Equal) {
            return c;
        }
        if this.track_number < that.track_number {
            return Ordering::Less;
        }
        if this.track_number > that.track_number {
            return Ordering::Greater;
        }
        str_cmp(this.title_sortable().as_str(), that.title_sortable().as_str())
    }

    /// The file's location on the device, under the device's data root.
    pub fn dms_location(&self) -> (r: String)
        requires
            self.wf(),
        ensures
            r@ == spec_dms_location(*self),
    {
        let rel = match crate::paths::relative_to(self.path.as_str(), self.base.as_str()) {
            Ok(s) => s,
            Err(_) => {
                proof {
                    assert(false);
                }
                String::new()
            },
        };
        path_join("/dos/data", rel.as_str())
    }

    /// The record's line in the device's CSV database format: location,
    /// title, artist, album, genre, duration, an empty field, track
    /// number, and the artwork placeholder, separated by tabs.
    pub fn to_csv(&self) -> (r: String)
        requires
            self.wf(),
        ensures
            r@ == spec_csv(*self),
    {
        let mut r = self.dms_location();
        push_char(&mut r, '\t');
        r.append(self.title.as_str());
        push_char(&mut r, '\t');
        r.append(self.artist.as_str());
        push_char(&mut r, '\t');
        r.append(self.album.as_str());
        push_char(&mut r, '\t');
        r.append(self.genre.as_str());
        push_char(&mut r, '\t');
        let dur = u64_to_string(self.duration);
        r.append(dur.as_str());
        push_char(&mut r, '\t');
        push_char(&mut r, '\t');
        let tn = u64_to_string(self.track_number as u64);
        r.append(tn.as_str());
        push_char(&mut r, '\t');
        r.append("NotFound.jpg");
        assert(r@ =~= spec_csv(*self));
        r
    }
}

/// The file's location on the device: the data root, then the file's
/// location relative to its scanned base.
pub open spec fn spec_dms_location(m: MediaMetadata) -> Seq<char> {
    "/dos/data"@ + seq!['/'] + rel_of(m.path@, m.base@)
}

/// The record's CSV line.
pub open spec fn spec_csv(m: MediaMetadata) -> Seq<char> {
    spec_dms_location(m) + seq!['\t'] + m.title@ + seq!['\t'] + m.artist@ + seq!['\t'] + m.album@
        + seq!['\t'] + m.genre@ + seq!['\t'] + dec_of(m.duration as int) + seq!['\t'] + seq!['\t']
        + dec_of(m.track_number as int) + seq!['\t'] + "NotFound.jpg"@
}

} // verus!
