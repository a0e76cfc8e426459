use attestations::codec::as_u32_be;
use attestations::codec::hash_attestation;
use attestations::codec::u32_be_bytes;
use attestations::codec::u32_to_decimal;
use attestations::entries::Attestation;
use attestations::types::AgentKey;

fn key(b: u8) -> AgentKey {
    AgentKey { bytes: vec![b; 39] }
}

#[test]
fn big_endian_word_is_read_back() {
    assert_eq!(as_u32_be(&vec![1, 2, 3, 4]), 16909060);
    assert_eq!(as_u32_be(&vec![0, 0, 0, 42]), 42);
    assert_eq!(as_u32_be(&vec![0xFF, 0xFF, 0xFF, 0xFF]), u32::MAX);
}

#[test]
fn big_endian_word_round_trip() {
    assert_eq!(u32_be_bytes(16909060), vec![1, 2, 3, 4]);
    assert_eq!(u32_be_bytes(0), vec![0, 0, 0, 0]);
    assert_eq!(as_u32_be(&u32_be_bytes(3735928559)), 3735928559);
}

#[test]
fn decimal_rendering_exact_values() {
    assert_eq!(u32_to_decimal(0), b"0".to_vec());
    assert_eq!(u32_to_decimal(7), b"7".to_vec());
    assert_eq!(u32_to_decimal(42), b"42".to_vec());
    assert_eq!(u32_to_decimal(4294967295), b"4294967295".to_vec());
}

#[test]
fn canonical_encoding_exact_bytes() {
    let about = key(7);
    let att = Attestation { content: b"hi".to_vec(), about };
    let h = hash_attestation(&att);
    let mut expected: Vec<u8> = vec![0, 0, 0, 2];
    expected.extend_from_slice(b"hi");
    expected.extend_from_slice(&[0, 0, 0, 39]);
    expected.extend_from_slice(&[7; 39]);
    assert_eq!(h.bytes, expected);
}

#[test]
fn canonical_encoding_separates_distinct_attestations() {
    let a = Attestation { content: b"ab".to_vec(), about: key(1) };
    let b = Attestation { content: b"a".to_vec(), about: key(1) };
    let c = Attestation { content: b"ab".to_vec(), about: key(2) };
    let ha = hash_attestation(&a).bytes;
    let hb = hash_attestation(&b).bytes;
    let hc = hash_attestation(&c).bytes;
    assert_ne!(ha, hb);
    assert_ne!(ha, hc);
    assert_ne!(hb, hc);
    let again = Attestation { content: b"ab".to_vec(), about: key(1) };
    assert_eq!(ha, hash_attestation(&again).bytes);
}
