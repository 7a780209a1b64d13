use std::cmp::Ordering;

use phatnoise::metadata::{
    parse_track_number, str_cmp, strip_article, u64_to_string, MediaMetadata,
};

fn record(artist: &str, album: &str, genre: &str, title: &str, track: u16) -> MediaMetadata {
    MediaMetadata::new(
        "Music/Some/File.mp3",
        "Music",
        artist.to_string(),
        album.to_string(),
        genre.to_string(),
        title.to_string(),
        track,
        245,
    )
}

#[test]
fn test_strip_article() {
    assert_eq!(strip_article("The Beatles"), "Beatles");
    assert_eq!(strip_article("the beatles"), "beatles");
    assert_eq!(strip_article("A Day To Remember"), "Day To Remember");
    assert_eq!(strip_article("An Horse"), "Horse");
    assert_eq!(strip_article("Metallica"), "Metallica");
    // an article with nothing after its whitespace is still stripped
    assert_eq!(strip_article("the "), "");
    // the whole whitespace run goes
    assert_eq!(strip_article("The  Two  Spaces"), "Two  Spaces");
    // no trailing whitespace: not an article
    assert_eq!(strip_article("Therapy?"), "Therapy?");
    assert_eq!(strip_article("Anberlin"), "Anberlin");
}

#[test]
fn test_str_cmp() {
    assert_eq!(str_cmp("abc", "abc"), Ordering::Equal);
    assert_eq!(str_cmp("abc", "abd"), Ordering::Less);
    assert_eq!(str_cmp("abd", "abc"), Ordering::Greater);
    assert_eq!(str_cmp("ab", "abc"), Ordering::Less);
    assert_eq!(str_cmp("abc", "ab"), Ordering::Greater);
    assert_eq!(str_cmp("", ""), Ordering::Equal);
}

#[test]
fn test_by_artist_ordering() {
    // articles are ignored when sorting artists
    let a = record("The Beatles", "Abbey Road", "Rock", "Come Together", 1);
    let b = record("Cake", "Fashion Nugget", "Rock", "Frank Sinatra", 1);
    assert_eq!(MediaMetadata::by_artist(&a, &b), Ordering::Less);

    // same artist and album: the track number decides
    let t1 = record("Cake", "Fashion Nugget", "Rock", "Frank Sinatra", 1);
    let t2 = record("Cake", "Fashion Nugget", "Rock", "The Distance", 2);
    assert_eq!(MediaMetadata::by_artist(&t1, &t2), Ordering::Less);
    assert_eq!(MediaMetadata::by_artist(&t2, &t1), Ordering::Greater);
    assert_eq!(MediaMetadata::by_artist(&t1, &t1), Ordering::Equal);
}

#[test]
fn test_by_genre_ordering() {
    let a = record("Artist", "Album", "Ambient", "Song", 1);
    let b = record("Artist", "Album", "Rock", "Song", 1);
    assert_eq!(MediaMetadata::by_genre(&a, &b), Ordering::Less);

    // same genre: the artist decides next, with articles ignored
    let c = record("The Cure", "Wish", "Rock", "Friday", 1);
    let d = record("Anthrax", "Fistful", "Rock", "Madhouse", 1);
    assert_eq!(MediaMetadata::by_genre(&c, &d), Ordering::Greater);
}

#[test]
fn test_u64_to_string() {
    assert_eq!(u64_to_string(0), "0");
    assert_eq!(u64_to_string(7), "7");
    assert_eq!(u64_to_string(10), "10");
    assert_eq!(u64_to_string(245), "245");
    assert_eq!(u64_to_string(18446744073709551615), "18446744073709551615");
}

#[test]
fn test_parse_track_number() {
    assert_eq!(parse_track_number("7"), Some(7));
    assert_eq!(parse_track_number("0"), Some(0));
    assert_eq!(parse_track_number("12/20"), Some(12));
    assert_eq!(parse_track_number("65535"), Some(65535));

    // too large for a track number
    assert_eq!(parse_track_number("65536"), None);
    // not digit runs
    assert_eq!(parse_track_number(""), None);
    assert_eq!(parse_track_number("x"), None);
    assert_eq!(parse_track_number("1x/2"), None);
    assert_eq!(parse_track_number("12/"), None);
    assert_eq!(parse_track_number("/12"), None);
    assert_eq!(parse_track_number("1/2/3"), None);
    assert_eq!(parse_track_number("-1"), None);
}

#[test]
fn test_dms_location() {
    let m = record("Artist", "Album", "Genre", "Song", 1);
    assert_eq!(m.dms_location(), "/dos/data/Some/File.mp3");
}

#[test]
fn test_to_csv() {
    let m = MediaMetadata::new(
        "Music/Artist/Album/01 - Song.mp3",
        "Music",
        "Artist".to_string(),
        "Album".to_string(),
        "Genre".to_string(),
        "Song".to_string(),
        1,
        245,
    );
    assert_eq!(
        m.to_csv(),
        "/dos/data/Artist/Album/01 - Song.mp3\tSong\tArtist\tAlbum\tGenre\t245\t\t1\tNotFound.jpg"
    );
}

#[test]
fn test_sortable_forms() {
    let m = record("The Cure", "A Wish", "An Odd Genre", "The Song", 1);
    assert_eq!(m.artist_sortable(), "Cure");
    assert_eq!(m.album_sortable(), "Wish");
    assert_eq!(m.genre_sortable(), "Odd Genre");
    assert_eq!(m.title_sortable(), "Song");
}
