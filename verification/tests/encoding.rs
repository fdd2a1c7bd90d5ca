//! The inline-reference encoding: exactness against the reference
//! implementation and byte-for-byte round trips.

use base64::Engine;
use svg2ico::b64::{decode, encode};
use svg2ico::report::make_data_url;

fn roundtrip(data: Vec<u8>) {
    let encoded = encode(&data);
    let decoded = decode(&encoded).expect("well-formed encoding must decode");
    assert_eq!(decoded, data);
}

#[test]
fn empty_buffer_round_trips() {
    roundtrip(vec![]);
}

#[test]
fn one_byte_round_trips() {
    roundtrip(vec![0]);
    roundtrip(vec![0xFF]);
    roundtrip(vec![b'M']);
}

#[test]
fn short_buffers_round_trip() {
    roundtrip(vec![1, 2]);
    roundtrip(vec![1, 2, 3]);
    roundtrip(vec![1, 2, 3, 4]);
    roundtrip(vec![250, 251, 252, 253, 254]);
}

#[test]
fn multi_kilobyte_buffer_round_trips() {
    let data: Vec<u8> = (0..4096u32).map(|i| (i * 7 + i / 256) as u8).collect();
    roundtrip(data);
}

#[test]
fn encoding_matches_reference_engine() {
    let samples: Vec<Vec<u8>> = vec![
        vec![],
        vec![0],
        vec![b'M', b'a'],
        vec![b'M', b'a', b'n'],
        b"any carnal pleasure.".to_vec(),
        (0..1000u32).map(|i| (i % 256) as u8).collect(),
        vec![0xFF; 33],
    ];
    for data in samples {
        let ours = String::from_utf8(encode(&data)).unwrap();
        let reference = base64::engine::general_purpose::STANDARD.encode(&data);
        assert_eq!(ours, reference);
    }
}

#[test]
fn known_vector_encodes_exactly() {
    assert_eq!(encode(&b"Man".to_vec()), b"TWFu".to_vec());
    assert_eq!(encode(&b"Ma".to_vec()), b"TWE=".to_vec());
    assert_eq!(encode(&b"M".to_vec()), b"TQ==".to_vec());
}

#[test]
fn malformed_encodings_are_rejected() {
    assert_eq!(decode(&b"A".to_vec()), None);
    assert_eq!(decode(&b"AB!".to_vec()), None);
    assert_eq!(decode(&b"A===".to_vec()), None);
    assert_eq!(decode(&b"=AAA".to_vec()), None);
    assert_eq!(decode(&b"TWFuTQ=".to_vec()), None);
}

#[test]
fn data_url_has_preamble_marker_and_payload() {
    let url = make_data_url("image/png", &b"Man".to_vec());
    assert_eq!(url, b"data:image/png;base64,TWFu".to_vec());
}

#[test]
fn data_url_round_trips_byte_for_byte() {
    for data in [
        vec![],
        vec![42],
        (0..3000u32).map(|i| (i * 13 % 256) as u8).collect::<Vec<u8>>(),
    ] {
        let ct = "application/octet-stream";
        let url = make_data_url(ct, &data);
        let prefix_len = "data:".len() + ct.len() + ";base64,".len();
        let tail: Vec<u8> = url[prefix_len..].to_vec();
        assert_eq!(decode(&tail), Some(data));
    }
}
