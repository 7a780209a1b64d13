use phatnoise::library::{get_dms_media_library, get_local_media_library, LibraryFile, LibrarySource};
use phatnoise::sync::{added_files, candidate_pairs, copy_plan, delete_plan, deleted_files, find_by_id};

fn local_set(paths: &[&str]) -> Vec<LibraryFile> {
    let owned: Vec<String> = paths.iter().map(|p| p.to_string()).collect();
    get_local_media_library("Music", &owned)
}

fn device_set(paths: &[&str]) -> Vec<LibraryFile> {
    let owned: Vec<String> = paths.iter().map(|p| p.to_string()).collect();
    get_dms_media_library("/mnt/dms", &owned)
}

#[test]
fn test_diff_classification() {
    let local = local_set(&[
        "Music/A/one.mp3",
        "Music/B/two.mp3",
        "Music/C/three.mp3",
    ]);
    let dms = device_set(&["/mnt/dms/B/two.mp3", "/mnt/dms/D/four.mp3"]);

    let added = added_files(&local, &dms);
    let deleted = deleted_files(&local, &dms);
    let pairs = candidate_pairs(&local, &dms);

    let added_ids: Vec<&str> = added.iter().map(|e| e.id.as_str()).collect();
    assert_eq!(added_ids, vec!["a/one.mp3", "c/three.mp3"]);

    let deleted_ids: Vec<&str> = deleted.iter().map(|e| e.id.as_str()).collect();
    assert_eq!(deleted_ids, vec!["d/four.mp3"]);

    assert_eq!(pairs.len(), 1);
    assert_eq!(pairs[0].0.id, "b/two.mp3");
    assert_eq!(pairs[0].1.id, "b/two.mp3");
    assert_eq!(pairs[0].0.path, "Music/B/two.mp3");
    assert_eq!(pairs[0].1.path, "/mnt/dms/B/two.mp3");
}

#[test]
fn test_diff_totality_concrete() {
    // added together with the candidates' local side is the whole local set;
    // deleted together with the candidates' device side is the whole device set
    let local = local_set(&["Music/A/one.mp3", "Music/B/two.mp3"]);
    let dms = device_set(&["/mnt/dms/B/two.mp3", "/mnt/dms/D/four.mp3"]);

    let added = added_files(&local, &dms);
    let deleted = deleted_files(&local, &dms);
    let pairs = candidate_pairs(&local, &dms);

    let mut local_cover: Vec<&str> = added.iter().map(|e| e.id.as_str()).collect();
    local_cover.extend(pairs.iter().map(|p| p.0.id.as_str()));
    local_cover.sort();
    let mut local_ids: Vec<&str> = local.iter().map(|e| e.id.as_str()).collect();
    local_ids.sort();
    assert_eq!(local_cover, local_ids);

    let mut dms_cover: Vec<&str> = deleted.iter().map(|e| e.id.as_str()).collect();
    dms_cover.extend(pairs.iter().map(|p| p.1.id.as_str()));
    dms_cover.sort();
    let mut dms_ids: Vec<&str> = dms.iter().map(|e| e.id.as_str()).collect();
    dms_ids.sort();
    assert_eq!(dms_cover, dms_ids);

    // no identity is both added and deleted
    for a in &added {
        assert!(deleted.iter().all(|d| d.id != a.id));
    }
}

#[test]
fn test_diff_symmetry_concrete() {
    let local = local_set(&["Music/A/one.mp3", "Music/B/two.mp3"]);
    let dms = device_set(&["/mnt/dms/B/two.mp3", "/mnt/dms/D/four.mp3"]);

    let added_ld: Vec<String> = added_files(&local, &dms).into_iter().map(|e| e.id).collect();
    let deleted_dl: Vec<String> = deleted_files(&dms, &local).into_iter().map(|e| e.id).collect();
    assert_eq!(added_ld, deleted_dl);

    let deleted_ld: Vec<String> = deleted_files(&local, &dms).into_iter().map(|e| e.id).collect();
    let added_dl: Vec<String> = added_files(&dms, &local).into_iter().map(|e| e.id).collect();
    assert_eq!(deleted_ld, added_dl);
}

#[test]
fn test_diff_empty_sets() {
    let local = local_set(&["Music/A/one.mp3"]);
    let empty: Vec<LibraryFile> = Vec::new();

    // empty device: everything is added, nothing deleted, no candidates
    assert_eq!(added_files(&local, &empty).len(), 1);
    assert_eq!(deleted_files(&local, &empty).len(), 0);
    assert_eq!(candidate_pairs(&local, &empty).len(), 0);

    // empty local: nothing added, everything deleted
    let dms = device_set(&["/mnt/dms/D/four.mp3"]);
    assert_eq!(added_files(&empty, &dms).len(), 0);
    assert_eq!(deleted_files(&empty, &dms).len(), 1);
}

#[test]
fn test_scan_dedup_first_seen_wins() {
    // the two paths collide on one identity (the tab is dropped); the
    // first-seen path is kept
    let local = local_set(&["Music/The\tEnd/x.mp3", "Music/TheEnd/x.mp3"]);
    assert_eq!(local.len(), 1);
    assert_eq!(local[0].id, "theend/x.mp3");
    assert_eq!(local[0].path, "Music/The\tEnd/x.mp3");
}

#[test]
fn test_find_by_id() {
    let dms = device_set(&["/mnt/dms/B/two.mp3", "/mnt/dms/D/four.mp3"]);
    assert_eq!(find_by_id(&dms, &"d/four.mp3".to_string()), Some(1));
    assert_eq!(find_by_id(&dms, &"zzz.mp3".to_string()), None);
}

#[test]
fn test_copy_plan_added_file() {
    // local has Artist/Song.mp3, device has none: the executor creates
    // the artist directory on the device and copies the file there
    let local = local_set(&["Music/Artist/Song.mp3"]);
    let dms: Vec<LibraryFile> = Vec::new();

    let added = added_files(&local, &dms);
    assert_eq!(added.len(), 1);

    let plan = copy_plan(&added, "/mnt/dms");
    assert_eq!(plan.len(), 1);
    assert_eq!(plan[0].source, "Music/Artist/Song.mp3");
    assert_eq!(plan[0].dest, "/mnt/dms/Artist/Song.mp3");
    assert_eq!(plan[0].dest_dir, "/mnt/dms/Artist");
}

#[test]
fn test_delete_plan_device_origin_only() {
    // only entries recorded as device-origin are ever deleted
    let orphan = LibraryFile::new("/mnt/dms/Orphan.mp3", "/mnt/dms", LibrarySource::DMS);
    let misfiled = LibraryFile::new("Music/Keep.mp3", "Music", LibrarySource::Local);
    let files = vec![orphan, misfiled];

    let plan = delete_plan(&files);
    assert_eq!(plan, vec!["/mnt/dms/Orphan.mp3".to_string()]);
}

#[test]
fn test_deleted_orphan() {
    // device has Orphan.mp3, local has none: it is deleted from the device
    let local: Vec<LibraryFile> = Vec::new();
    let dms = device_set(&["/mnt/dms/Orphan.mp3"]);

    let deleted = deleted_files(&local, &dms);
    assert_eq!(deleted.len(), 1);
    assert_eq!(deleted[0].id, "orphan.mp3");
    assert_eq!(deleted[0].source, LibrarySource::DMS);

    let plan = delete_plan(&deleted);
    assert_eq!(plan, vec!["/mnt/dms/Orphan.mp3".to_string()]);
}

#[test]
fn test_sync_idempotent_second_run_empty() {
    // first run: copy everything to the empty device; rescanning the
    // device then yields an empty diff and zero planned operations
    let local = local_set(&["Music/A/one.mp3", "Music/B/two.mp3"]);
    let dms_before: Vec<LibraryFile> = Vec::new();

    let added = added_files(&local, &dms_before);
    let plan = copy_plan(&added, "/mnt/dms");
    let device_paths: Vec<&str> = plan.iter().map(|op| op.dest.as_str()).collect();

    let dms_after = device_set(&device_paths);
    assert_eq!(added_files(&local, &dms_after).len(), 0);
    assert_eq!(deleted_files(&local, &dms_after).len(), 0);
    assert_eq!(candidate_pairs(&local, &dms_after).len(), local.len());

    // so the second run plans no copies and no deletes beyond the
    // candidates, which the change detector settles without work
    let second_plan = copy_plan(&added_files(&local, &dms_after), "/mnt/dms");
    assert_eq!(second_plan.len(), 0);
    let second_deletes = delete_plan(&deleted_files(&local, &dms_after));
    assert_eq!(second_deletes.len(), 0);
}
