use realtor_listings::codec::{decode_payload, encode_decode_round_trip, encode_payload};
use realtor_listings::errors::Error;

#[test]
fn encode_known_value() {
    let bytes = vec![104u8, 105u8];
    assert_eq!(encode_payload(&bytes), "aGk=");
}

#[test]
fn encode_matches_reference_encoder() {
    let bytes: Vec<u8> = (0u8..=255u8).collect();
    assert_eq!(encode_payload(&bytes), base64::encode(&bytes));
}

#[test]
fn decode_known_value() {
    let decoded = decode_payload("aGk=").unwrap();
    assert_eq!(decoded, vec![104u8, 105u8]);
}

#[test]
fn decode_rejects_malformed_text() {
    let r = decode_payload("!!! not base64 !!!");
    assert_eq!(r.unwrap_err(), Error::MalformedEncoding);
}

#[test]
fn round_trip_empty() {
    let bytes: Vec<u8> = Vec::new();
    assert_eq!(encode_decode_round_trip(&bytes), bytes);
    assert_eq!(encode_payload(&bytes), "");
}

#[test]
fn round_trip_binary() {
    let bytes: Vec<u8> = (0u8..=255u8).collect();
    assert_eq!(encode_decode_round_trip(&bytes), bytes);
}

#[test]
fn round_trip_non_utf8() {
    let bytes = vec![0xffu8, 0xfe, 0x00, 0x80, 0x7f, 0xc3];
    let text = encode_payload(&bytes);
    assert_eq!(decode_payload(&text).unwrap(), bytes);
}
