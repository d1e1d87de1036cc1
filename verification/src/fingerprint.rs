//! Fingerprints of media files.
use vstd::prelude::*;
use vstd::string::*;
use vstd::bytes::*;
use vstd::utf8::*;
use vstd::std_specs::hash::*;
use std::collections::hash_map::DefaultHasher;
use std::hash::Hasher;
use crate::capture::CaptureTime;

verus! {

/// The hash of one run of bytes.
pub open spec fn spec_hashed(data: Seq<u8>) -> u64 {
    DefaultHasher::spec_finish(seq![data])
}

/// The seconds of an instant, moved into the unsigned range.
pub open spec fn shifted_seconds(seconds: i64) -> u64 {
    (seconds + 0x8000_0000_0000_0000) as u64
}

/// The bytes that stand for a file name and a capture instant: the instant
/// in twelve bytes, then the name in UTF-8.
pub open spec fn fingerprint_input(name: Seq<char>, seconds: i64, nanos: u32) -> Seq<u8> {
    spec_u64_to_le_bytes(shifted_seconds(seconds)) + spec_u32_to_le_bytes(nanos) + encode_utf8(name)
}

/// The fingerprint of a file name and a capture time.
pub open spec fn spec_fingerprint(name: Seq<char>, created: CaptureTime) -> u64 {
    spec_hashed(fingerprint_input(name, created.seconds, created.nanos))
}

/// Hashes `data` with the standard hasher in its fixed initial state, so
/// that equal bytes always hash alike.
pub fn hashed(data: &[u8]) -> (hash: u64)
    ensures
        hash == spec_hashed(data@),
{
    let mut hasher = DefaultHasher::new();
    hasher.write(data);
    assert(hasher@ =~= seq![data@]);
    hasher.finish()
}

/// The fingerprint under which a file is indexed: a hash of its name and of
/// the instant of its capture. The path and the size take no part in it.
pub fn fingerprint(name: &str, created: &CaptureTime) -> (key: u64)
    ensures
        key == spec_fingerprint(name@, *created),
{
    let shifted: i128 = created.seconds as i128 + 0x8000_0000_0000_0000i128;
    let mut buffer: Vec<u8> = u64_to_le_bytes(shifted as u64);
    let nanos: Vec<u8> = u32_to_le_bytes(created.nanos);
    buffer.extend_from_slice(nanos.as_slice());
    buffer.extend_from_slice(name.as_bytes());
    assert(buffer@ =~= fingerprint_input(name@, created.seconds, created.nanos));
    hashed(buffer.as_slice())
}

/// Different names or different instants never share the bytes that are
/// hashed: two fingerprints can only agree by a collision of the hasher.
pub proof fn lemma_fingerprint_input_injective(
    name1: Seq<char>,
    seconds1: i64,
    nanos1: u32,
    name2: Seq<char>,
    seconds2: i64,
    nanos2: u32,
)
    requires
        fingerprint_input(name1, seconds1, nanos1) == fingerprint_input(name2, seconds2, nanos2),
    ensures
        name1 == name2,
        seconds1 == seconds2,
        nanos1 == nanos2,
{
    lemma_auto_spec_u64_to_from_le_bytes();
    lemma_auto_spec_u32_to_from_le_bytes();
    let a1 = spec_u64_to_le_bytes(shifted_seconds(seconds1));
    let a2 = spec_u64_to_le_bytes(shifted_seconds(seconds2));
    let b1 = spec_u32_to_le_bytes(nanos1);
    let b2 = spec_u32_to_le_bytes(nanos2);
    let c1 = encode_utf8(name1);
    let c2 = encode_utf8(name2);
    let all1 = fingerprint_input(name1, seconds1, nanos1);
    let all2 = fingerprint_input(name2, seconds2, nanos2);
    assert(all1.subrange(0, 8) =~= a1);
    assert(all2.subrange(0, 8) =~= a2);
    assert(all1.subrange(8, 12) =~= b1);
    assert(all2.subrange(8, 12) =~= b2);
    assert(all1.subrange(12, all1.len() as int) =~= c1);
    assert(all2.subrange(12, all2.len() as int) =~= c2);
    assert(spec_u64_from_le_bytes(a1) == spec_u64_from_le_bytes(a2));
    assert(shifted_seconds(seconds1) == shifted_seconds(seconds2));
    assert(spec_u32_from_le_bytes(b1) == spec_u32_from_le_bytes(b2));
    encode_utf8_decode_utf8(name1);
    encode_utf8_decode_utf8(name2);
}

/// Capture times of the same moment give the same fingerprint to a name,
/// whatever their calendar dates.
pub proof fn lemma_fingerprint_of_same_instant(name: Seq<char>, a: CaptureTime, b: CaptureTime)
    requires
        a.spec_same_instant(b),
    ensures
        spec_fingerprint(name, a) == spec_fingerprint(name, b),
{
}

} // verus!
