//! Format sniffer: a fast plausibility check that an uploaded byte buffer is
//! vector-markup content. The buffer must be decodable as UTF-8 text and must
//! contain both the opening and the closing markup marker as literal
//! substrings. This is a rejection filter, not a validator: malformed markup
//! that carries both markers is accepted here and fails later, at the
//! authoritative parse.

use vstd::prelude::*;

verus! {

use vstd::string::StrSliceExecFns;
use vstd::utf8::{
    valid_utf8, valid_first_scalar, valid_leading_and_continuation_bytes_first_codepoint,
    decode_first_codepoint, codepoint_width_2, codepoint_width_3, codepoint_width_4,
    length_of_first_scalar, partial_valid_utf8, partial_valid_utf8_extend,
    partial_valid_partial_invalid_utf8,
};
use crate::text::lit;

/// `needle` occurs in `hay` as a contiguous run of bytes.
pub open spec fn has_sub(hay: Seq<u8>, needle: Seq<u8>) -> bool {
    exists|i: int|
        0 <= i && i + needle.len() <= hay.len() && #[trigger] hay.subrange(i, i + needle.len())
            == needle
}

/// Byte-level substring search, matching `has_sub`.
pub fn contains_sub(hay: &Vec<u8>, needle: &Vec<u8>) -> (r: bool)
    ensures
        r == has_sub(hay@, needle@),
{
    let n = needle.len();
    let h = hay.len();
    if n == 0 {
        proof {
            assert(hay@.subrange(0, 0 + needle@.len() as int) =~= needle@);
        }
        return true;
    }
    if n > h {
        return false;
    }
    let mut i: usize = 0;
    while i <= h - n
        invariant
            1 <= n <= h,
            h == hay@.len(),
            n == needle@.len(),
            i <= h - n + 1,
            forall|k: int| 0 <= k < i ==> #[trigger] hay@.subrange(k, k + n) != needle@,
        decreases h - n - i + 1,
    {
        let mut matched = true;
        let mut j: usize = 0;
        while j < n
            invariant
                i + n <= h,
                h == hay@.len(),
                n == needle@.len(),
                j <= n,
                matched ==> forall|t: int| 0 <= t < j ==> hay@[i + t] == needle@[t],
                !matched ==> hay@.subrange(i as int, i + n) != needle@,
            decreases n - j,
        {
            if hay[i + j] != needle[j] {
                proof {
                    assert(hay@.subrange(i as int, i + n)[j as int] == hay@[i + j]);
                }
                matched = false;
                j = n;
            } else {
                j += 1;
            }
        }
        if matched {
            proof {
                assert(hay@.subrange(i as int, i + n) =~= needle@);
            }
            return true;
        }
        i += 1;
    }
    false
}

/// An ASCII byte's data bits stay below the surrogate range.
proof fn bv_ascii(c0: u8)
    by (bit_vector)
    ensures
        ((c0 & 0x7F) as u32) <= 0x7F,
{
}

/// A 2-byte value led by 0xC0 or 0xC1 is overlong.
proof fn bv_w2_overlong(c0: u8, c1: u8)
    by (bit_vector)
    requires
        0xC0 <= c0,
        c0 <= 0xC1,
    ensures
        ((((c0 & 0x1F) as u32) << 6) | ((c1 & 0x3F) as u32)) < 0x80,
{
}

/// A 2-byte value led by 0xC2..0xDF is in range and below the surrogates.
proof fn bv_w2_ok(c0: u8, c1: u8)
    by (bit_vector)
    requires
        0xC2 <= c0,
        c0 <= 0xDF,
    ensures
        ((((c0 & 0x1F) as u32) << 6) | ((c1 & 0x3F) as u32)) >= 0x80,
        ((((c0 & 0x1F) as u32) << 6) | ((c1 & 0x3F) as u32)) <= 0x7FF,
{
}

/// A 3-byte value led by 0xE0 with a low second byte is overlong.
proof fn bv_w3_overlong(c0: u8, c1: u8, c2: u8)
    by (bit_vector)
    requires
        c0 == 0xE0,
        0x80 <= c1,
        c1 < 0xA0,
    ensures
        (((((c0 & 0x0F) as u32) << 12) | (((c1 & 0x3F) as u32) << 6)) | ((c2 & 0x3F) as u32))
            < 0x800,
{
}

/// A 3-byte value led by 0xED with a high second byte is a surrogate.
proof fn bv_w3_surrogate(c0: u8, c1: u8, c2: u8)
    by (bit_vector)
    requires
        c0 == 0xED,
        0xA0 <= c1,
        c1 <= 0xBF,
    ensures
        (((((c0 & 0x0F) as u32) << 12) | (((c1 & 0x3F) as u32) << 6)) | ((c2 & 0x3F) as u32))
            >= 0xD800,
        (((((c0 & 0x0F) as u32) << 12) | (((c1 & 0x3F) as u32) << 6)) | ((c2 & 0x3F) as u32))
            <= 0xDFFF,
{
}

/// Any other 3-byte value is in range and is no surrogate.
proof fn bv_w3_ok(c0: u8, c1: u8, c2: u8)
    by (bit_vector)
    requires
        0xE0 <= c0,
        c0 <= 0xEF,
        0x80 <= c1,
        c1 <= 0xBF,
        c0 == 0xE0 ==> c1 >= 0xA0,
        !(c0 == 0xED && c1 >= 0xA0),
    ensures
        (((((c0 & 0x0F) as u32) << 12) | (((c1 & 0x3F) as u32) << 6)) | ((c2 & 0x3F) as u32))
            >= 0x800,
        !((((((c0 & 0x0F) as u32) << 12) | (((c1 & 0x3F) as u32) << 6)) | ((c2 & 0x3F) as u32))
            >= 0xD800 && (((((c0 & 0x0F) as u32) << 12) | (((c1 & 0x3F) as u32) << 6)) | ((c2
            & 0x3F) as u32)) <= 0xDFFF),
{
}

/// A 4-byte value led by 0xF0 with a low second byte is overlong.
proof fn bv_w4_overlong(c0: u8, c1: u8, c2: u8, c3: u8)
    by (bit_vector)
    requires
        c0 == 0xF0,
        0x80 <= c1,
        c1 < 0x90,
    ensures
        ((((((c0 & 0x07) as u32) << 18) | (((c1 & 0x3F) as u32) << 12)) | (((c2 & 0x3F) as u32)
            << 6)) | ((c3 & 0x3F) as u32)) < 0x10000,
{
}

/// A 4-byte value led by 0xF4 with a high second byte, or by 0xF5..0xF7,
/// lies past the last scalar.
proof fn bv_w4_high(c0: u8, c1: u8, c2: u8, c3: u8)
    by (bit_vector)
    requires
        (c0 == 0xF4 && 0x90 <= c1 && c1 <= 0xBF) || (0xF5 <= c0 && c0 <= 0xF7),
    ensures
        ((((((c0 & 0x07) as u32) << 18) | (((c1 & 0x3F) as u32) << 12)) | (((c2 & 0x3F) as u32)
            << 6)) | ((c3 & 0x3F) as u32)) > 0x10FFFF,
{
}

/// Any other 4-byte value is in the scalar range.
proof fn bv_w4_ok(c0: u8, c1: u8, c2: u8, c3: u8)
    by (bit_vector)
    requires
        0xF0 <= c0,
        c0 <= 0xF4,
        0x80 <= c1,
        c1 <= 0xBF,
        c0 == 0xF0 ==> c1 >= 0x90,
        c0 == 0xF4 ==> c1 < 0x90,
    ensures
        ((((((c0 & 0x07) as u32) << 18) | (((c1 & 0x3F) as u32) << 12)) | (((c2 & 0x3F) as u32)
            << 6)) | ((c3 & 0x3F) as u32)) >= 0x10000,
        ((((((c0 & 0x07) as u32) << 18) | (((c1 & 0x3F) as u32) << 12)) | (((c2 & 0x3F) as u32)
            << 6)) | ((c3 & 0x3F) as u32)) <= 0x10FFFF,
{
}

/// Checks that the buffer is a valid UTF-8 encoding: each scalar's leading
/// and continuation bytes follow the encoding's bit patterns, and no
/// encoding is overlong, in the surrogate range, or past the last scalar.
#[verifier::rlimit(100)]
fn text_decodable(b: &Vec<u8>) -> (r: bool)
    ensures
        r == valid_utf8(b@),
{
    let n = b.len();
    let mut i: usize = 0;
    proof {
        assert(b@.subrange(0, 0) =~= Seq::<u8>::empty());
    }
    while i < n
        invariant
            i <= n,
            n == b@.len(),
            partial_valid_utf8(b@, i as int),
        decreases n - i,
    {
        let ghost rest = b@.subrange(i as int, n as int);
        proof {
            assert(rest.len() == n - i);
            assert(rest[0] == b@[i as int]);
        }
        let c0 = b[i];
        if c0 < 0x80 {
            proof {
                bv_ascii(c0);
                assert(valid_first_scalar(rest));
                assert(length_of_first_scalar(rest) == 1);
                partial_valid_utf8_extend(b@, i as int);
            }
            i += 1;
        } else if c0 < 0xC0 {
            // a continuation byte cannot lead a scalar
            proof {
                assert(!valid_first_scalar(rest));
                partial_valid_partial_invalid_utf8(b@, i as int);
            }
            return false;
        } else if c0 < 0xE0 {
            if n - i < 2 {
                proof {
                    assert(!valid_first_scalar(rest));
                    partial_valid_partial_invalid_utf8(b@, i as int);
                }
                return false;
            }
            let c1 = b[i + 1];
            proof {
                assert(rest[1] == b@[i + 1]);
            }
            if c1 < 0x80 || c1 > 0xBF {
                proof {
                    assert(!valid_first_scalar(rest));
                    partial_valid_partial_invalid_utf8(b@, i as int);
                }
                return false;
            }
            if c0 < 0xC2 {
                // overlong: the value fits a shorter encoding
                proof {
                    bv_w2_overlong(c0, c1);
                    assert(decode_first_codepoint(rest) == codepoint_width_2(c0, c1));
                    assert(!valid_first_scalar(rest));
                    partial_valid_partial_invalid_utf8(b@, i as int);
                }
                return false;
            }
            proof {
                bv_w2_ok(c0, c1);
                assert(decode_first_codepoint(rest) == codepoint_width_2(c0, c1));
                assert(valid_first_scalar(rest));
                assert(length_of_first_scalar(rest) == 2);
                partial_valid_utf8_extend(b@, i as int);
            }
            i += 2;
        } else if c0 < 0xF0 {
            if n - i < 3 {
                proof {
                    assert(!valid_first_scalar(rest));
                    partial_valid_partial_invalid_utf8(b@, i as int);
                }
                return false;
            }
            let c1 = b[i + 1];
            let c2 = b[i + 2];
            proof {
                assert(rest[1] == b@[i + 1] && rest[2] == b@[i + 2]);
            }
            if c1 < 0x80 || c1 > 0xBF || c2 < 0x80 || c2 > 0xBF {
                proof {
                    assert(!valid_first_scalar(rest));
                    partial_valid_partial_invalid_utf8(b@, i as int);
                }
                return false;
            }
            if c0 == 0xE0 && c1 < 0xA0 {
                // overlong: the value fits a shorter encoding
                proof {
                    bv_w3_overlong(c0, c1, c2);
                    assert(decode_first_codepoint(rest) == codepoint_width_3(c0, c1, c2));
                    assert(!valid_first_scalar(rest));
                    partial_valid_partial_invalid_utf8(b@, i as int);
                }
                return false;
            }
            if c0 == 0xED && c1 >= 0xA0 {
                // the surrogate range is not encodable
                proof {
                    bv_w3_surrogate(c0, c1, c2);
                    assert(decode_first_codepoint(rest) == codepoint_width_3(c0, c1, c2));
                    assert(!valid_first_scalar(rest));
                    partial_valid_partial_invalid_utf8(b@, i as int);
                }
                return false;
            }
            proof {
                bv_w3_ok(c0, c1, c2);
                assert(decode_first_codepoint(rest) == codepoint_width_3(c0, c1, c2));
                assert(valid_first_scalar(rest));
                assert(length_of_first_scalar(rest) == 3);
                partial_valid_utf8_extend(b@, i as int);
            }
            i += 3;
        } else {
            if c0 > 0xF4 {
                // past the last scalar, or no leading-byte pattern at all
                proof {
                    if valid_leading_and_continuation_bytes_first_codepoint(rest) {
                        bv_w4_high(c0, rest[1], rest[2], rest[3]);
                        assert(decode_first_codepoint(rest) == codepoint_width_4(
                            c0,
                            rest[1],
                            rest[2],
                            rest[3],
                        ));
                    }
                    assert(!valid_first_scalar(rest));
                    partial_valid_partial_invalid_utf8(b@, i as int);
                }
                return false;
            }
            if n - i < 4 {
                proof {
                    assert(!valid_first_scalar(rest));
                    partial_valid_partial_invalid_utf8(b@, i as int);
                }
                return false;
            }
            let c1 = b[i + 1];
            let c2 = b[i + 2];
            let c3 = b[i + 3];
            proof {
                assert(rest[1] == b@[i + 1] && rest[2] == b@[i + 2] && rest[3] == b@[i + 3]);
            }
            if c1 < 0x80 || c1 > 0xBF || c2 < 0x80 || c2 > 0xBF || c3 < 0x80 || c3 > 0xBF {
                proof {
                    assert(!valid_first_scalar(rest));
                    partial_valid_partial_invalid_utf8(b@, i as int);
                }
                return false;
            }
            if c0 == 0xF0 && c1 < 0x90 {
                // overlong: the value fits a shorter encoding
                proof {
                    bv_w4_overlong(c0, c1, c2, c3);
                    assert(decode_first_codepoint(rest) == codepoint_width_4(c0, c1, c2, c3));
                    assert(!valid_first_scalar(rest));
                    partial_valid_partial_invalid_utf8(b@, i as int);
                }
                return false;
            }
            if c0 == 0xF4 && c1 >= 0x90 {
                // past the last scalar
                proof {
                    bv_w4_high(c0, c1, c2, c3);
                    assert(decode_first_codepoint(rest) == codepoint_width_4(c0, c1, c2, c3));
                    assert(!valid_first_scalar(rest));
                    partial_valid_partial_invalid_utf8(b@, i as int);
                }
                return false;
            }
            proof {
                bv_w4_ok(c0, c1, c2, c3);
                assert(decode_first_codepoint(rest) == codepoint_width_4(c0, c1, c2, c3));
                assert(valid_first_scalar(rest));
                assert(length_of_first_scalar(rest) == 4);
                partial_valid_utf8_extend(b@, i as int);
            }
            i += 4;
        }
    }
    proof {
        assert(b@.subrange(0, n as int) =~= b@);
    }
    true
}

/// The sniffer accepts the buffer: it decodes as text and holds both the
/// opening and the closing vector-markup marker.
pub open spec fn spec_sniff_ok(b: Seq<u8>) -> bool {
    valid_utf8(b) && has_sub(b, lit("<svg")) && has_sub(b, lit("</svg>"))
}

/// Plausibility check for vector-markup uploads, matching `spec_sniff_ok`.
/// A buffer that is not decodable as text is rejected, never an error.
pub fn is_svg(data: &Vec<u8>) -> (r: bool)
    ensures
        r == spec_sniff_ok(data@),
{
    if !text_decodable(data) {
        return false;
    }
    let open_marker = "<svg".as_bytes_vec();
    let close_marker = "</svg>".as_bytes_vec();
    contains_sub(data, &open_marker) && contains_sub(data, &close_marker)
}

} // verus!
