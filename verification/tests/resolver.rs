use foto_sync::resolver::decide;
use foto_sync::{fingerprint, CaptureTime, Decision, ExistingIndex, FoundFile, MediaFile};

fn new_year() -> CaptureTime {
    CaptureTime::from_timestamp(1_704_103_200, 0, 0).unwrap()
}

fn archived(path: &str, name: &str, created: CaptureTime, size: u64) -> MediaFile {
    MediaFile { path: path.to_string(), name: name.to_string(), created, size }
}

fn found(path: &str, name: &str, created: Option<CaptureTime>, size: Option<u64>) -> FoundFile {
    FoundFile { path: path.to_string(), name: name.to_string(), created, size }
}

#[test]
fn an_unmatched_file_is_copied_as_new() {
    let index = ExistingIndex::new();
    let key = fingerprint("IMG_001.jpg", &new_year());
    assert_eq!(index.resolve(key, 1000), Decision::CopyAsNew);
    assert_eq!(index.resolve(key, 0), Decision::CopyAsNew);
    assert_eq!(decide(None, 1000), Decision::CopyAsNew);
    assert!(!index.contains(key));
    assert!(index.lookup(key).is_none());
    assert_eq!(index.len(), 0);
}

#[test]
fn a_file_of_the_same_size_is_skipped() {
    let mut index = ExistingIndex::new();
    index.insert(archived("/a/IMG_001.jpg", "IMG_001.jpg", new_year(), 1000));
    let key = fingerprint("IMG_001.jpg", &new_year());
    assert!(index.contains(key));
    assert_eq!(index.resolve(key, 1000), Decision::Skip);
}

#[test]
fn a_smaller_file_is_skipped() {
    let mut index = ExistingIndex::new();
    index.insert(archived("/a/IMG_001.jpg", "IMG_001.jpg", new_year(), 1000));
    let key = fingerprint("IMG_001.jpg", &new_year());
    assert_eq!(index.resolve(key, 999), Decision::Skip);
    assert_eq!(index.resolve(key, 0), Decision::Skip);
}

#[test]
fn a_larger_file_is_copied_as_higher_quality() {
    let mut index = ExistingIndex::new();
    index.insert(archived("/a/IMG_001.jpg", "IMG_001.jpg", new_year(), 1000));
    let key = fingerprint("IMG_001.jpg", &new_year());
    assert_eq!(index.resolve(key, 1001), Decision::CopyAsHigherQuality);
    assert_eq!(index.resolve(key, u64::MAX), Decision::CopyAsHigherQuality);
}

#[test]
fn three_archived_files_of_one_name_and_date_are_all_kept() {
    let mut index = ExistingIndex::new();
    index.insert(archived("/a/IMG_001.jpg", "IMG_001.jpg", new_year(), 1000));
    index.insert(archived("/b/IMG_001.jpg", "IMG_001.jpg", new_year(), 3000));
    index.insert(archived("/c/IMG_001.jpg", "IMG_001.jpg", new_year(), 2000));
    let key = fingerprint("IMG_001.jpg", &new_year());
    assert_eq!(index.len(), 1);
    let files = index.lookup(key).unwrap();
    let sizes: Vec<u64> = files.iter().map(|f| f.size).collect();
    assert_eq!(sizes, vec![1000, 3000, 2000]);
    let paths: Vec<&str> = files.iter().map(|f| f.path.as_str()).collect();
    assert_eq!(paths, vec!["/a/IMG_001.jpg", "/b/IMG_001.jpg", "/c/IMG_001.jpg"]);
    assert_eq!(index.resolve(key, 1000), Decision::Skip);
    assert_eq!(index.resolve(key, 2000), Decision::Skip);
    assert_eq!(index.resolve(key, 2500), Decision::Skip);
    assert_eq!(index.resolve(key, 3000), Decision::Skip);
    assert_eq!(index.resolve(key, 3001), Decision::CopyAsHigherQuality);
}

#[test]
fn decide_goes_by_the_largest_matched_file() {
    let files = vec![
        archived("/a/x.jpg", "x.jpg", new_year(), 10),
        archived("/b/x.jpg", "x.jpg", new_year(), 30),
    ];
    assert_eq!(decide(Some(&files), 10), Decision::Skip);
    assert_eq!(decide(Some(&files), 20), Decision::Skip);
    assert_eq!(decide(Some(&files), 30), Decision::Skip);
    assert_eq!(decide(Some(&files), 31), Decision::CopyAsHigherQuality);
    let none: Vec<MediaFile> = Vec::new();
    assert_eq!(decide(Some(&none), 0), Decision::CopyAsHigherQuality);
}

#[test]
fn files_of_other_names_or_dates_do_not_match() {
    let mut index = ExistingIndex::new();
    index.insert(archived("/a/IMG_001.jpg", "IMG_001.jpg", new_year(), 1000));
    let other_name = fingerprint("IMG_002.jpg", &new_year());
    let other_date = fingerprint("IMG_001.jpg", &CaptureTime::from_timestamp(1_704_189_600, 0, 0).unwrap());
    assert_eq!(index.resolve(other_name, 1000), Decision::CopyAsNew);
    assert_eq!(index.resolve(other_date, 1000), Decision::CopyAsNew);
}

#[test]
fn files_without_metadata_match_each_other() {
    let mut index = ExistingIndex::new();
    index.insert(archived("/a/scan.jpg", "scan.jpg", CaptureTime::zero(), 500));
    let candidate = found("/new/scan.jpg", "scan.jpg", None, Some(500));
    assert_eq!(candidate.key(), fingerprint("scan.jpg", &CaptureTime::zero()));
    assert_eq!(index.resolve(candidate.key(), 500), Decision::Skip);
    assert_eq!(index.resolve(candidate.key(), 501), Decision::CopyAsHigherQuality);
}

#[test]
fn the_index_is_built_in_order_from_files() {
    let files = vec![
        archived("/a/IMG_001.jpg", "IMG_001.jpg", new_year(), 1000),
        archived("/a/IMG_002.jpg", "IMG_002.jpg", new_year(), 700),
        archived("/b/IMG_001.jpg", "IMG_001.jpg", new_year(), 400),
    ];
    let index = ExistingIndex::from_files(&files);
    assert_eq!(index.len(), 2);
    let first = index.lookup(files[0].key()).unwrap();
    assert_eq!(first.len(), 2);
    assert_eq!(first[0].path, "/a/IMG_001.jpg");
    assert_eq!(first[1].path, "/b/IMG_001.jpg");
    assert_eq!(index.lookup(files[1].key()).unwrap().len(), 1);
}

#[test]
fn a_file_of_unknown_size_is_left_out_of_the_index() {
    let scans = vec![
        found("/a/IMG_001.jpg", "IMG_001.jpg", Some(new_year()), Some(1000)),
        found("/a/IMG_002.jpg", "IMG_002.jpg", Some(new_year()), None),
        found("/a/scan.jpg", "scan.jpg", None, Some(5)),
    ];
    let index = ExistingIndex::from_found(&scans);
    assert_eq!(index.len(), 2);
    assert!(index.contains(scans[0].key()));
    assert!(!index.contains(scans[1].key()));
    assert!(index.contains(scans[2].key()));
    let scan = &index.lookup(scans[2].key()).unwrap()[0];
    assert_eq!(scan.created.date_dir_name(), "0000_00_00");
    assert_eq!(scan.size, 5);
    assert_eq!(scan.path, "/a/scan.jpg");
    assert_eq!(scan.name, "scan.jpg");
}

#[test]
fn a_descriptor_needs_a_size_but_no_capture_time() {
    let whole = MediaFile::try_from_found(&found("/a/x.jpg", "x.jpg", None, Some(9))).unwrap();
    assert_eq!((whole.path.as_str(), whole.name.as_str(), whole.size), ("/a/x.jpg", "x.jpg", 9));
    assert!(whole.created.same_instant(&CaptureTime::zero()));
    assert_eq!(whole.key(), fingerprint("x.jpg", &CaptureTime::zero()));
    assert!(MediaFile::try_from_found(&found("/a/x.jpg", "x.jpg", Some(new_year()), None)).is_none());
    let copy = whole.clone();
    assert_eq!((copy.path, copy.name, copy.size), (whole.path, whole.name, whole.size));
}
