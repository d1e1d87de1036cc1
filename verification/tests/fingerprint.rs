use foto_sync::{fingerprint, hashed, CaptureTime};
use std::collections::hash_map::DefaultHasher;
use std::hash::Hasher;

fn at(seconds: i64, offset: i32) -> CaptureTime {
    CaptureTime::from_timestamp(seconds, 0, offset).unwrap()
}

#[test]
fn hashed_is_the_standard_hasher_on_the_bytes() {
    let mut hasher = DefaultHasher::new();
    hasher.write(b"IMG_001.jpg");
    assert_eq!(hashed(b"IMG_001.jpg"), hasher.finish());
    assert_eq!(hashed(b"IMG_001.jpg"), hashed(b"IMG_001.jpg"));
    assert_ne!(hashed(b"IMG_001.jpg"), hashed(b"IMG_002.jpg"));
    assert_ne!(hashed(b""), hashed(b"\0"));
}

#[test]
fn the_fingerprint_hashes_instant_and_name() {
    let time = at(1_704_103_200, 0);
    let mut bytes: Vec<u8> = Vec::new();
    bytes.extend_from_slice(&((1_704_103_200i128 + (1i128 << 63)) as u64).to_le_bytes());
    bytes.extend_from_slice(&0u32.to_le_bytes());
    bytes.extend_from_slice("IMG_001.jpg".as_bytes());
    assert_eq!(fingerprint("IMG_001.jpg", &time), hashed(&bytes));
}

#[test]
fn equal_inputs_give_equal_fingerprints() {
    let a = fingerprint("IMG_001.jpg", &at(1_704_103_200, 0));
    let b = fingerprint(&String::from("IMG_001.jpg"), &at(1_704_103_200, 0));
    assert_eq!(a, b);
}

#[test]
fn another_name_or_moment_changes_the_fingerprint() {
    let base = fingerprint("IMG_001.jpg", &at(1_704_103_200, 0));
    assert_ne!(base, fingerprint("IMG_002.jpg", &at(1_704_103_200, 0)));
    assert_ne!(base, fingerprint("IMG_001.jpg", &at(1_704_189_600, 0)));
    assert_ne!(base, fingerprint("IMG_001.jpg", &at(1_704_103_201, 0)));
    assert_ne!(base, fingerprint("IMG_001.jpg", &CaptureTime::zero()));
    let later = CaptureTime::from_timestamp(1_704_103_200, 1, 0).unwrap();
    assert_ne!(base, fingerprint("IMG_001.jpg", &later));
    assert_ne!(fingerprint("", &at(-1, 0)), fingerprint("", &at(1, 0)));
}

#[test]
fn the_zone_of_capture_takes_no_part_in_the_fingerprint() {
    let utc = at(1_704_146_400, 0);
    let east = at(1_704_146_400, 8 * 3600);
    assert_ne!(utc.date_dir_name(), east.date_dir_name());
    assert_eq!(fingerprint("IMG_001.jpg", &utc), fingerprint("IMG_001.jpg", &east));
}

#[test]
fn names_of_any_script_are_fingerprinted() {
    let time = CaptureTime::zero();
    assert_eq!(fingerprint("日本語.jpg", &time), fingerprint("日本語.jpg", &time));
    assert_ne!(fingerprint("日本語.jpg", &time), fingerprint("日本.jpg", &time));
}
