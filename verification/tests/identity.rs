use phatnoise::casefold::fold_str;
use phatnoise::fsync::{is_allowed_dms_path, is_media_file, MediaFile};
use phatnoise::library::{LibraryFile, LibrarySource};
use phatnoise::media::is_media_filename;

#[test]
fn fsync_test_is_media_file() {
    // test false cases
    assert!(!is_media_file("/home/naftuli/Music/Directory"));
    assert!(!is_media_file("/home/naftuli/Music/Directory/Folder.jpg"));

    // test true cases
    assert!(is_media_file("/home/naftuli/Music/01 - Track.mp3"));
    assert!(is_media_file("/home/naftuli/Music/01 - Track.MP3"));
}

#[test]
fn mod_test_is_media_file() {
    // test false cases
    assert!(!is_media_file("/home/naftuli/Music/Directory"));
    assert!(!is_media_file("/home/naftuli/Music/Directory/Folder.jpg"));

    // test true cases
    assert!(is_media_file("/home/naftuli/Music/01 - Track.mp3"));
    assert!(is_media_file("/home/naftuli/Music/01 - Track.MP3"));
}

#[test]
fn test_is_media_filename() {
    // test false cases
    assert!(!is_media_filename("/home/naftuli/Music/Directory"));
    assert!(!is_media_filename("/home/naftuli/Music/Directory/Folder.jpg"));

    // test true cases
    assert!(is_media_filename("/home/naftuli/Music/01 - Track.mp3"));
    assert!(is_media_filename("/home/naftuli/Music/01 - Track.MP3"));
}

#[test]
fn fsync_test_media_file_identity() {
    let base = "Music";

    // test bounce to lowercase
    assert_eq!(
        "andrew w. k./i get wet/02 - party hard.mp3",
        MediaFile::new("Music/Andrew W. K./I Get Wet/02 - Party Hard.mp3", base).id()
    );
    // test supported ascii characters
    assert_eq!(
        "mêlée/everyday behavior/01 - got it all.mp3",
        MediaFile::new("Music/Mêlée/Everyday Behavior/01 - Got It All.mp3", base).id()
    );
    // test strip colons
    assert_eq!(
        "apocalyptica/begin again/01 - track thing.mp3",
        MediaFile::new("Music/Apocalyptica/Begin: Again/01 - Track: Thing.mp3", base).id()
    );
    // test strip tabs
    assert_eq!(
        "the end/something.mp3",
        MediaFile::new("Music/The\tEnd/Something.mp3", base).id()
    );
}

#[test]
fn mod_test_media_file_identity() {
    let base = "Music";

    // test bounce to lowercase
    assert_eq!(
        "andrew w. k./i get wet/02 - party hard.mp3",
        MediaFile::new("Music/Andrew W. K./I Get Wet/02 - Party Hard.mp3", base).id()
    );
    // test supported ascii characters
    assert_eq!(
        "mêlée/everyday behavior/01 - got it all.mp3",
        MediaFile::new("Music/Mêlée/Everyday Behavior/01 - Got It All.mp3", base).id()
    );
    // test strip colons
    assert_eq!(
        "apocalyptica/begin again/01 - track thing.mp3",
        MediaFile::new("Music/Apocalyptica/Begin: Again/01 - Track: Thing.mp3", base).id()
    );
    // test strip tabs
    assert_eq!(
        "the end/something.mp3",
        MediaFile::new("Music/The\tEnd/Something.mp3", base).id()
    );
}

#[test]
fn library_test_media_file_identity() {
    let base = "Music";

    // test bounce to lowercase
    assert_eq!(
        "andrew w. k./i get wet/02 - party hard.mp3",
        LibraryFile::new(
            "Music/Andrew W. K./I Get Wet/02 - Party Hard.mp3",
            base,
            LibrarySource::Local
        )
        .id
    );
    // test supported ascii characters
    assert_eq!(
        "mêlée/everyday behavior/01 - got it all.mp3",
        LibraryFile::new(
            "Music/Mêlée/Everyday Behavior/01 - Got It All.mp3",
            base,
            LibrarySource::Local
        )
        .id
    );
    // test strip colons
    assert_eq!(
        "apocalyptica/begin- again/01 - track- thing.mp3",
        LibraryFile::new(
            "Music/Apocalyptica/Begin: Again/01 - Track: Thing.mp3",
            base,
            LibrarySource::Local
        )
        .id
    );
    // test strip tabs
    assert_eq!(
        "theend/something.mp3",
        LibraryFile::new("Music/The\tEnd/Something.mp3", base, LibrarySource::DMS).id
    );
}

#[test]
fn test_identity_case_fold_idempotent() {
    // folding a normalized identity changes nothing
    let id = MediaFile::new("Music/Straße/ÀÉÎ: Mix.MP3", "Music").id();
    assert_eq!(fold_str(&id), id);

    let lid = LibraryFile::gen_id("Music/Straße/ÀÉÎ: Mix.MP3", "Music");
    assert_eq!(fold_str(&lid), lid);

    // and the fold itself really rewrites text
    assert_eq!(fold_str("AbC"), "abc");
    assert_eq!(fold_str("Straße"), "strasse");
    assert_eq!(fold_str(""), "");
}

#[test]
fn test_is_allowed_dms_path() {
    // the device's reserved data directories are excluded, whatever the case
    assert!(!is_allowed_dms_path("/mnt/dms", "/mnt/dms/profiles"));
    assert!(!is_allowed_dms_path("/mnt/dms", "/mnt/dms/Profiles"));
    assert!(!is_allowed_dms_path("/mnt/dms", "/mnt/dms/TTS"));
    // media directories and files are allowed
    assert!(is_allowed_dms_path("/mnt/dms", "/mnt/dms/Artist"));
    assert!(is_allowed_dms_path("/mnt/dms", "/mnt/dms/profiles.mp3"));
}

#[test]
fn test_identity_deterministic() {
    let a = MediaFile::new("Music/Artist/Track.mp3", "Music").id();
    let b = MediaFile::new("Music/Artist/Track.mp3", "Music").id();
    assert_eq!(a, b);
}
