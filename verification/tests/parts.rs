use phatnoise::data::TracksDbIndex;
use phatnoise::dms::{find_mount_point, parse_mount_line, starts_with};
use phatnoise::paths::{parent_dir, path_join, relative_to, PathError};

#[test]
fn test_relative_to() {
    assert_eq!(
        relative_to("Music/Artist/Song.mp3", "Music"),
        Ok("Artist/Song.mp3".to_string())
    );
    // not a descendant: the scanner broke its contract
    assert_eq!(relative_to("Elsewhere/Song.mp3", "Music"), Err(PathError));
    assert_eq!(relative_to("Music", "Music"), Err(PathError));
    assert_eq!(relative_to("Music/", "Music"), Err(PathError));
    assert_eq!(relative_to("Musical/Song.mp3", "Music"), Err(PathError));
}

#[test]
fn test_path_join_and_parent() {
    let joined = path_join("/mnt/dms", "Artist/Song.mp3");
    assert_eq!(joined, "/mnt/dms/Artist/Song.mp3");
    assert_eq!(parent_dir(&joined), Some("/mnt/dms/Artist".to_string()));
    assert_eq!(parent_dir("no-separator"), None);
}

#[test]
fn test_parse_mount_line() {
    assert_eq!(
        parse_mount_line("/dev/sdb1 /mnt/dms vfat rw,relatime 0 0"),
        Some(("/dev/sdb1".to_string(), "/mnt/dms".to_string()))
    );
    assert_eq!(
        parse_mount_line("/dev/sdb1\t/mnt/dms"),
        Some(("/dev/sdb1".to_string(), "/mnt/dms".to_string()))
    );
    // no second token
    assert_eq!(parse_mount_line("/dev/sdb1"), None);
    assert_eq!(parse_mount_line("/dev/sdb1   "), None);
    // leading whitespace: no device token
    assert_eq!(parse_mount_line(" /dev/sdb1 /mnt/dms"), None);
    assert_eq!(parse_mount_line(""), None);
}

#[test]
fn test_find_mount_point() {
    let lines = vec![
        "/dev/sda1 / ext4 rw 0 0".to_string(),
        "/dev/sdb1 /mnt/dms vfat rw 0 0".to_string(),
    ];
    assert_eq!(find_mount_point("/dev/sdb1", &lines), Some("/mnt/dms".to_string()));
    assert_eq!(find_mount_point("/dev/sdc1", &lines), None);
}

#[test]
fn test_starts_with() {
    assert!(starts_with("/dev/sdb1 /mnt", "/dev/sdb1"));
    assert!(!starts_with("/dev/sda", "/dev/sdb"));
    assert!(!starts_with("/dev", "/dev/sdb1"));
    assert!(starts_with("anything", ""));
}

#[test]
fn test_tracks_index_to_bytes() {
    let idx = TracksDbIndex { track_offsets: vec![1, 258, 0x01020304] };
    let bytes = idx.to_bytes();
    assert_eq!(
        bytes,
        vec![
            3, 0, 0, 0, // the count, little-endian
            1, 0, 0, 0, // 1
            2, 1, 0, 0, // 258
            4, 3, 2, 1, // 0x01020304
        ]
    );

    let empty = TracksDbIndex { track_offsets: Vec::new() };
    assert_eq!(empty.to_bytes(), vec![0, 0, 0, 0]);
}
