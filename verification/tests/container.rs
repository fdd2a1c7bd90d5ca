//! The raster-header reader and the icon container layout, held against the
//! declared directory format and an independent icon reader.

use svg2ico::pack::pack_icons;
use svg2ico::png::{raster_meta, RasterMeta};

/// A minimal encoded-raster buffer: signature, header chunk with the given
/// dimensions, depth and color type, and a placeholder checksum.
fn fake_png(w: u32, h: u32, depth: u8, color: u8) -> Vec<u8> {
    let mut v = vec![137u8, 80, 78, 71, 13, 10, 26, 10];
    v.extend_from_slice(&[0, 0, 0, 13]);
    v.extend_from_slice(b"IHDR");
    v.extend_from_slice(&w.to_be_bytes());
    v.extend_from_slice(&h.to_be_bytes());
    v.extend_from_slice(&[depth, color, 0, 0, 0]);
    v.extend_from_slice(&[0, 0, 0, 0]);
    v
}

fn le16_at(buf: &[u8], i: usize) -> u32 {
    buf[i] as u32 | ((buf[i + 1] as u32) << 8)
}

fn le32_at(buf: &[u8], i: usize) -> u32 {
    buf[i] as u32 | ((buf[i + 1] as u32) << 8) | ((buf[i + 2] as u32) << 16)
        | ((buf[i + 3] as u32) << 24)
}

#[test]
fn raster_meta_reads_back_dimensions() {
    let png = fake_png(16, 32, 8, 6);
    let meta = raster_meta(&png);
    assert_eq!(
        meta,
        Some(RasterMeta { width: 16, height: 32, bits_per_pixel: 32 })
    );
}

#[test]
fn raster_meta_rejects_malformed_buffers() {
    assert_eq!(raster_meta(&vec![]), None);
    assert_eq!(raster_meta(&vec![0u8; 40]), None);
    let mut bad_sig = fake_png(16, 16, 8, 6);
    bad_sig[0] = 0;
    assert_eq!(raster_meta(&bad_sig), None);
    assert_eq!(raster_meta(&fake_png(0, 16, 8, 6)), None);
    assert_eq!(raster_meta(&fake_png(16, 16, 3, 6)), None);
    assert_eq!(raster_meta(&fake_png(16, 16, 8, 5)), None);
    let short = fake_png(16, 16, 8, 6)[..30].to_vec();
    assert_eq!(raster_meta(&short), None);
}

#[test]
fn container_declares_four_entries_in_order() {
    let pngs: Vec<Vec<u8>> = [16u32, 32, 64, 128]
        .iter()
        .map(|&s| fake_png(s, s, 8, 6))
        .collect();
    let icon = pack_icons(&pngs).expect("packable input");

    // header: reserved, type 1, declared entry count 4
    assert_eq!(&icon[0..4], &[0, 0, 1, 0]);
    assert_eq!(le16_at(&icon, 4), 4);

    // directory order matches the configured target order
    let dims: Vec<(u8, u8)> = (0..4).map(|i| (icon[6 + 16 * i], icon[7 + 16 * i])).collect();
    assert_eq!(dims, vec![(16, 16), (32, 32), (64, 64), (128, 128)]);

    // per-entry fields: color count, reserved, planes, bits per pixel
    for i in 0..4 {
        let e = 6 + 16 * i;
        assert_eq!(icon[e + 2], 0);
        assert_eq!(icon[e + 3], 0);
        assert_eq!(le16_at(&icon, e + 4), 0);
        assert_eq!(le16_at(&icon, e + 6), 32);
        assert_eq!(le32_at(&icon, e + 8) as usize, pngs[i].len());
    }

    // offsets: strictly increasing, non-overlapping, within the buffer,
    // and each payload stands unchanged at its recorded offset
    let mut expected = 6 + 16 * 4;
    for i in 0..4 {
        let e = 6 + 16 * i;
        let size = le32_at(&icon, e + 8) as usize;
        let offset = le32_at(&icon, e + 12) as usize;
        assert_eq!(offset, expected);
        assert!(offset + size <= icon.len());
        assert_eq!(&icon[offset..offset + size], &pngs[i][..]);
        expected = offset + size;
    }
    assert_eq!(expected, icon.len());
}

#[test]
fn independent_reader_accepts_the_container() {
    let pngs: Vec<Vec<u8>> = [16u32, 32, 64, 128]
        .iter()
        .map(|&s| fake_png(s, s, 8, 6))
        .collect();
    let icon = pack_icons(&pngs).expect("packable input");
    let dir = ico::IconDir::read(std::io::Cursor::new(&icon)).expect("readable container");
    assert_eq!(dir.entries().len(), 4);
    for (i, entry) in dir.entries().iter().enumerate() {
        assert_eq!(entry.data(), &pngs[i][..]);
    }
}

#[test]
fn empty_input_packs_to_bare_header() {
    let icon = pack_icons(&vec![]).expect("empty input is packable");
    assert_eq!(icon, vec![0, 0, 1, 0, 0, 0]);
}

#[test]
fn unreadable_payload_fails_packing() {
    let pngs = vec![fake_png(16, 16, 8, 6), vec![1, 2, 3]];
    assert_eq!(pack_icons(&pngs), None);
}

#[test]
fn oversized_dimensions_fail_packing() {
    let pngs = vec![fake_png(300, 16, 8, 6)];
    assert_eq!(pack_icons(&pngs), None);
    assert!(pack_icons(&vec![fake_png(256, 256, 8, 6)]).is_some());
}

#[test]
fn mismatched_color_depths_fail_packing() {
    let pngs = vec![fake_png(16, 16, 8, 6), fake_png(32, 32, 8, 2)];
    assert_eq!(pack_icons(&pngs), None);
}
