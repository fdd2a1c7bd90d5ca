//! Raster-header reader: recovers width, height and bit depth from an
//! encoded raster buffer, as far as the icon container's directory needs
//! them. The container must describe the payload actually stored, so these
//! values are read back from the encoded bytes, not trusted from the render
//! targets. Only the fixed-layout signature and header chunk are read; full
//! decoding is not needed for directory metadata.

use vstd::prelude::*;

verus! {

/// Directory metadata of one encoded raster: pixel dimensions and the bits
/// per pixel that its depth and color classes give.
#[derive(Debug, Clone, Copy, PartialEq, Eq, Structural)]
pub struct RasterMeta {
    pub width: u32,
    pub height: u32,
    pub bits_per_pixel: u16,
}

/// Big-endian 32-bit value at offset `i`.
pub open spec fn be32(s: Seq<u8>, i: int) -> int {
    s[i] * 0x1000000 + s[i + 1] * 0x10000 + s[i + 2] * 0x100 + s[i + 3]
}

/// The buffer opens with the 8-byte raster-format signature followed by the
/// fixed 13-byte header chunk's length and name.
pub open spec fn header_ok(s: Seq<u8>) -> bool {
    &&& s.len() >= 33
    &&& s[0] == 137u8
    &&& s[1] == 80u8
    &&& s[2] == 78u8
    &&& s[3] == 71u8
    &&& s[4] == 13u8
    &&& s[5] == 10u8
    &&& s[6] == 26u8
    &&& s[7] == 10u8
    &&& s[8] == 0u8
    &&& s[9] == 0u8
    &&& s[10] == 0u8
    &&& s[11] == 13u8
    &&& s[12] == 73u8
    &&& s[13] == 72u8
    &&& s[14] == 68u8
    &&& s[15] == 82u8
}

/// Samples per pixel of a color-type byte; 0 marks an unknown color type.
pub open spec fn spec_channels(color_type: u8) -> u8 {
    if color_type == 0 {
        1u8  // grayscale
    } else if color_type == 2 {
        3u8  // truecolor
    } else if color_type == 3 {
        1u8  // indexed
    } else if color_type == 4 {
        2u8  // grayscale with alpha
    } else if color_type == 6 {
        4u8  // truecolor with alpha
    } else {
        0u8
    }
}

/// A legal bit-depth byte.
pub open spec fn depth_ok(d: u8) -> bool {
    d == 1 || d == 2 || d == 4 || d == 8 || d == 16
}

/// The directory metadata carried by an encoded raster buffer, or `None`
/// when the buffer does not begin with a well-formed header.
pub open spec fn spec_raster_meta(s: Seq<u8>) -> Option<RasterMeta> {
    if header_ok(s) && be32(s, 16) >= 1 && be32(s, 20) >= 1 && depth_ok(s[24]) && spec_channels(
        s[25],
    ) != 0 {
        Some(
            RasterMeta {
                width: be32(s, 16) as u32,
                height: be32(s, 20) as u32,
                bits_per_pixel: (s[24] * spec_channels(s[25])) as u16,
            },
        )
    } else {
        None
    }
}

/// Reads the big-endian 32-bit value at offset `i`.
fn read_be32(data: &Vec<u8>, i: usize) -> (r: u32)
    requires
        i + 4 <= data@.len(),
    ensures
        r == be32(data@, i as int),
{
    let n = data.len();
    (data[i] as u32) * 0x1000000 + (data[i + 1] as u32) * 0x10000 + (data[i + 2] as u32) * 0x100
        + (data[i + 3] as u32)
}

/// Recovers directory metadata from an encoded raster buffer, matching
/// `spec_raster_meta`.
pub fn raster_meta(data: &Vec<u8>) -> (r: Option<RasterMeta>)
    ensures
        r == spec_raster_meta(data@),
{
    if data.len() < 33 {
        return None;
    }
    let sig_ok = data[0] == 137 && data[1] == 80 && data[2] == 78 && data[3] == 71 && data[4] == 13
        && data[5] == 10 && data[6] == 26 && data[7] == 10;
    let ihdr_ok = data[8] == 0 && data[9] == 0 && data[10] == 0 && data[11] == 13 && data[12] == 73
        && data[13] == 72 && data[14] == 68 && data[15] == 82;
    if !sig_ok || !ihdr_ok {
        return None;
    }
    let width = read_be32(data, 16);
    let height = read_be32(data, 20);
    if width == 0 || height == 0 {
        return None;
    }
    let depth = data[24];
    if !(depth == 1 || depth == 2 || depth == 4 || depth == 8 || depth == 16) {
        return None;
    }
    let channels = {
        let color_type = data[25];
        if color_type == 0 {
            1u8
        } else if color_type == 2 {
            3u8
        } else if color_type == 3 {
            1u8
        } else if color_type == 4 {
            2u8
        } else if color_type == 6 {
            4u8
        } else {
            0u8
        }
    };
    if channels == 0 {
        return None;
    }
    proof {
        assert((depth as int) * (channels as int) <= 64) by (nonlinear_arith)
            requires
                depth <= 16 && channels <= 4,
        ;
    }
    Some(
        RasterMeta {
            width,
            height,
            bits_per_pixel: (depth as u16) * (channels as u16),
        },
    )
}

} // verus!
