//! The sniffer, the input screen, the report, and the end-to-end response
//! decisions for the upload scenarios.

use svg2ico::pipeline::{
    assemble, check_upload, error_message, icon_sizes, respond, ConvertError,
};
use svg2ico::sniff::is_svg;
use svg2ico::text::dec_u64;

fn fake_png(w: u32, h: u32) -> Vec<u8> {
    let mut v = vec![137u8, 80, 78, 71, 13, 10, 26, 10];
    v.extend_from_slice(&[0, 0, 0, 13]);
    v.extend_from_slice(b"IHDR");
    v.extend_from_slice(&w.to_be_bytes());
    v.extend_from_slice(&h.to_be_bytes());
    v.extend_from_slice(&[8, 6, 0, 0, 0]);
    v.extend_from_slice(&[0, 0, 0, 0]);
    v
}

fn renders() -> Vec<Vec<u8>> {
    icon_sizes().iter().map(|&s| fake_png(s, s)).collect()
}

fn count_sub(hay: &[u8], needle: &[u8]) -> usize {
    if needle.is_empty() || hay.len() < needle.len() {
        return 0;
    }
    (0..=hay.len() - needle.len())
        .filter(|&i| &hay[i..i + needle.len()] == needle)
        .count()
}

#[test]
fn decimal_formatting_is_exact() {
    assert_eq!(dec_u64(0), b"0".to_vec());
    assert_eq!(dec_u64(7), b"7".to_vec());
    assert_eq!(dec_u64(128), b"128".to_vec());
    assert_eq!(dec_u64(1048576), b"1048576".to_vec());
}

#[test]
fn sniffer_accepts_marker_bearing_text() {
    assert!(is_svg(&b"<svg width=\"1\"></svg>".to_vec()));
    assert!(is_svg(&b"prefix <svg>middle</svg> suffix".to_vec()));
    // malformed markup still passes: the authoritative parse comes later
    assert!(is_svg(&b"<svg <<< nonsense </svg>".to_vec()));
}

#[test]
fn sniffer_rejects_marker_free_or_binary_input() {
    assert!(!is_svg(&vec![]));
    assert!(!is_svg(&b"hello world".to_vec()));
    assert!(!is_svg(&b"<svg> no closing marker".to_vec()));
    assert!(!is_svg(&b"no opening marker </svg>".to_vec()));
    // markers present, but the buffer is not decodable as text
    let mut binary = b"<svg></svg>".to_vec();
    binary.push(0xFF);
    assert!(!is_svg(&binary));
}

#[test]
fn screen_classifies_uploads() {
    assert_eq!(check_upload(&vec![]), Err(ConvertError::InputMissing));
    assert_eq!(
        check_upload(&b"just bytes".to_vec()),
        Err(ConvertError::SniffRejected)
    );
    assert_eq!(check_upload(&b"<svg></svg>".to_vec()), Ok(()));
}

#[test]
fn report_embeds_all_artifacts_in_order() {
    let data = b"<svg></svg>".to_vec();
    let body = assemble("image/svg+xml", &data, &renders()).expect("packable renders");

    // exactly 4 rendered-image references, 1 original, 1 container preview
    assert_eq!(count_sub(&body, b"src=\"data:image/png;base64,"), 4);
    assert_eq!(count_sub(&body, b"src=\"data:image/svg+xml;base64,"), 1);
    assert_eq!(count_sub(&body, b"src=\"data:image/ico;base64,"), 1);
    assert_eq!(count_sub(&body, b"download=\"favicon.ico\""), 1);

    // progress lines appear in ascending configured order
    assert_eq!(count_sub(&body, b"Generating      : 16x16 image"), 1);
    let i16 = body
        .windows(b"16x16".len())
        .position(|w| w == b"16x16")
        .unwrap();
    let i32_ = body
        .windows(b"32x32".len())
        .position(|w| w == b"32x32")
        .unwrap();
    let i64_ = body
        .windows(b"64x64".len())
        .position(|w| w == b"64x64")
        .unwrap();
    let i128_ = body
        .windows(b"128x128".len())
        .position(|w| w == b"128x128")
        .unwrap();
    assert!(i16 < i32_ && i32_ < i64_ && i64_ < i128_);

    assert_eq!(count_sub(&body, b"Upload size     : 11 bytes"), 1);
    assert_eq!(count_sub(&body, b"Content-Type    : image/svg+xml"), 1);
}

#[test]
fn upload_scenario_minimal_document_succeeds() {
    let data = b"<svg></svg>".to_vec();
    let r = respond("image/svg+xml", &data, &Ok(renders()));
    let body = r.expect("conversion succeeds");
    assert_eq!(count_sub(&body, b"src=\"data:image/png;base64,"), 4);
    assert_eq!(count_sub(&body, b"src=\"data:image/ico;base64,"), 1);
    assert_eq!(count_sub(&body, b"download=\"favicon.ico\""), 1);
}

#[test]
fn upload_scenario_empty_buffer_is_missing_input() {
    let r = respond("image/svg+xml", &vec![], &Ok(renders()));
    assert_eq!(r, Err(ConvertError::InputMissing));
    assert_eq!(
        error_message(ConvertError::InputMissing),
        "You need to upload a file (file missing or empty)"
    );
}

#[test]
fn upload_scenario_marker_free_bytes_are_sniff_rejected() {
    let data = b"GIF89a not a vector".to_vec();
    let r = respond("image/gif", &data, &Ok(renders()));
    assert_eq!(r, Err(ConvertError::SniffRejected));
    assert_eq!(
        error_message(ConvertError::SniffRejected),
        "This file does not look like an SVG file"
    );
}

#[test]
fn upload_scenario_parse_failure_yields_no_container() {
    // passes sniffing, but the engine's authoritative parse failed
    let data = b"<svg this does not parse </svg>".to_vec();
    assert_eq!(check_upload(&data), Ok(()));
    let r = respond(
        "image/svg+xml",
        &data,
        &Err(ConvertError::DocumentParseError),
    );
    assert_eq!(r, Err(ConvertError::DocumentParseError));
}

#[test]
fn packer_failure_maps_to_pack_error() {
    let data = b"<svg></svg>".to_vec();
    let bad = vec![vec![1u8, 2, 3], vec![], vec![], vec![]];
    let r = respond("image/svg+xml", &data, &Ok(bad));
    assert_eq!(r, Err(ConvertError::PackError));
}

#[test]
fn each_error_kind_has_a_fixed_message() {
    let msgs: Vec<&str> = [
        ConvertError::InputMissing,
        ConvertError::SniffRejected,
        ConvertError::DocumentParseError,
        ConvertError::RenderError,
        ConvertError::EncodeError,
        ConvertError::PackError,
    ]
    .iter()
    .map(|&e| error_message(e))
    .collect();
    for (i, m) in msgs.iter().enumerate() {
        assert!(!m.is_empty());
        for other in &msgs[i + 1..] {
            assert_ne!(m, other);
        }
    }
    assert_eq!(
        error_message(ConvertError::PackError),
        "The icon file could not be assembled"
    );
}
