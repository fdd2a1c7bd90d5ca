//! The reversible text encoding behind inline data references: each group of
//! 3 payload bytes becomes 4 characters of the standard 64-character
//! alphabet, with `=` padding for a short final group. Encoding is total and
//! decoding recovers the payload exactly; `lemma_round_trip` states that law.

use vstd::prelude::*;

verus! {

/// ASCII byte of the standard-alphabet character for a 6-bit value.
pub open spec fn b64_char(x: u8) -> u8
    recommends
        x < 64,
{
    if x < 26 {
        (65 + x) as u8  // 'A'..'Z'
    } else if x < 52 {
        (97 + (x - 26)) as u8  // 'a'..'z'
    } else if x < 62 {
        (48 + (x - 52)) as u8  // '0'..'9'
    } else if x == 62 {
        43u8  // '+'
    } else {
        47u8  // '/'
    }
}

/// 6-bit value of an alphabet byte; `None` off the alphabet (`=` included).
pub open spec fn b64_val(c: u8) -> Option<u8> {
    if 65 <= c && c <= 90 {
        Some((c - 65) as u8)
    } else if 97 <= c && c <= 122 {
        Some((26 + (c - 97)) as u8)
    } else if 48 <= c && c <= 57 {
        Some((52 + (c - 48)) as u8)
    } else if c == 43 {
        Some(62u8)
    } else if c == 47 {
        Some(63u8)
    } else {
        None
    }
}

/// The alphabet is injective: a character decodes back to the 6-bit value it
/// was chosen for, and the padding byte `=` is not an alphabet character.
pub proof fn lemma_char_val(x: u8)
    requires
        x < 64,
    ensures
        b64_val(b64_char(x)) == Some(x),
        b64_char(x) != 61,
{
}

/// Four output bytes of a full 3-byte group.
pub open spec fn enc3(b0: u8, b1: u8, b2: u8) -> Seq<u8> {
    seq![
        b64_char(b0 >> 2),
        b64_char(((b0 & 3) << 4) | (b1 >> 4)),
        b64_char(((b1 & 15) << 2) | (b2 >> 6)),
        b64_char(b2 & 63),
    ]
}

/// Four output bytes of a final 2-byte group, padded with one `=`.
pub open spec fn enc2(b0: u8, b1: u8) -> Seq<u8> {
    seq![
        b64_char(b0 >> 2),
        b64_char(((b0 & 3) << 4) | (b1 >> 4)),
        b64_char((b1 & 15) << 2),
        61u8,
    ]
}

/// Four output bytes of a final 1-byte group, padded with two `=`.
pub open spec fn enc1(b0: u8) -> Seq<u8> {
    seq![b64_char(b0 >> 2), b64_char((b0 & 3) << 4), 61u8, 61u8]
}

/// The full encoding: 3-byte groups from the front, a padded final group.
pub open spec fn b64_encode(s: Seq<u8>) -> Seq<u8>
    decreases s.len(),
{
    if s.len() == 0 {
        Seq::empty()
    } else if s.len() == 1 {
        enc1(s[0])
    } else if s.len() == 2 {
        enc2(s[0], s[1])
    } else {
        enc3(s[0], s[1], s[2]) + b64_encode(s.skip(3))
    }
}

/// Bytes of a final 4-character group, padding allowed only at the end.
pub open spec fn dec_group(c0: u8, c1: u8, c2: u8, c3: u8) -> Option<Seq<u8>> {
    match (b64_val(c0), b64_val(c1)) {
        (Some(v0), Some(v1)) => {
            if c2 == 61 && c3 == 61 {
                Some(seq![(v0 << 2) | (v1 >> 4)])
            } else if c2 == 61 {
                None
            } else {
                match b64_val(c2) {
                    Some(v2) => {
                        if c3 == 61 {
                            Some(seq![(v0 << 2) | (v1 >> 4), ((v1 & 15) << 4) | (v2 >> 2)])
                        } else {
                            match b64_val(c3) {
                                Some(v3) => Some(
                                    seq![
                                        (v0 << 2) | (v1 >> 4),
                                        ((v1 & 15) << 4) | (v2 >> 2),
                                        ((v2 & 3) << 6) | v3,
                                    ],
                                ),
                                None => None,
                            }
                        }
                    },
                    None => None,
                }
            }
        },
        _ => None,
    }
}

/// The full decoding: `None` unless the input is empty or splits into
/// 4-character groups, unpadded except for the last.
pub open spec fn b64_decode(s: Seq<u8>) -> Option<Seq<u8>>
    decreases s.len(),
{
    if s.len() == 0 {
        Some(Seq::empty())
    } else if s.len() < 4 {
        None
    } else if s.len() == 4 {
        dec_group(s[0], s[1], s[2], s[3])
    } else {
        match (b64_val(s[0]), b64_val(s[1]), b64_val(s[2]), b64_val(s[3])) {
            (Some(v0), Some(v1), Some(v2), Some(v3)) => match b64_decode(s.skip(4)) {
                Some(rest) => Some(
                    seq![
                        (v0 << 2) | (v1 >> 4),
                        ((v1 & 15) << 4) | (v2 >> 2),
                        ((v2 & 3) << 6) | v3,
                    ] + rest,
                ),
                None => None,
            },
            _ => None,
        }
    }
}

/// Decoding undoes encoding exactly, for every byte sequence.
pub proof fn lemma_round_trip(s: Seq<u8>)
    ensures
        b64_decode(b64_encode(s)) == Some(s),
    decreases s.len(),
{
    if s.len() == 0 {
        assert(b64_encode(s).len() == 0);
    } else if s.len() == 1 {
        let b = s[0];
        assert(b >> 2 < 64 && (b & 3) << 4 < 64) by (bit_vector);
        lemma_char_val(b >> 2);
        lemma_char_val((b & 3) << 4);
        assert(((b >> 2) << 2) | (((b & 3) << 4) >> 4) == b) by (bit_vector);
        assert(seq![b] =~= s);
    } else if s.len() == 2 {
        let b0 = s[0];
        let b1 = s[1];
        let x0 = b0 >> 2;
        let x1 = ((b0 & 3) << 4) | (b1 >> 4);
        let x2 = (b1 & 15) << 2;
        assert(b0 >> 2 < 64 && (((b0 & 3) << 4) | (b1 >> 4)) < 64 && ((b1 & 15) << 2) < 64)
            by (bit_vector);
        lemma_char_val(x0);
        lemma_char_val(x1);
        lemma_char_val(x2);
        assert(((b0 >> 2) << 2) | ((((b0 & 3) << 4) | (b1 >> 4)) >> 4) == b0) by (bit_vector);
        assert((((((b0 & 3) << 4) | (b1 >> 4)) & 15) << 4) | (((b1 & 15) << 2) >> 2) == b1)
            by (bit_vector);
        assert(seq![b0, b1] =~= s);
    } else {
        let b0 = s[0];
        let b1 = s[1];
        let b2 = s[2];
        let x0 = b0 >> 2;
        let x1 = ((b0 & 3) << 4) | (b1 >> 4);
        let x2 = ((b1 & 15) << 2) | (b2 >> 6);
        let x3 = b2 & 63;
        assert(b0 >> 2 < 64 && (((b0 & 3) << 4) | (b1 >> 4)) < 64 && ((((b1 & 15) << 2) | (b2
            >> 6))) < 64 && b2 & 63 < 64) by (bit_vector);
        lemma_char_val(x0);
        lemma_char_val(x1);
        lemma_char_val(x2);
        lemma_char_val(x3);
        assert(((b0 >> 2) << 2) | ((((b0 & 3) << 4) | (b1 >> 4)) >> 4) == b0) by (bit_vector);
        assert((((((b0 & 3) << 4) | (b1 >> 4)) & 15) << 4) | (((((b1 & 15) << 2) | (b2 >> 6))
            >> 2)) == b1) by (bit_vector);
        assert((((((b1 & 15) << 2) | (b2 >> 6)) & 3) << 6) | (b2 & 63) == b2) by (bit_vector);
        let rest = s.skip(3);
        lemma_round_trip(rest);
        let e = b64_encode(s);
        assert(e == enc3(b0, b1, b2) + b64_encode(rest));
        if rest.len() == 0 {
            assert(b64_encode(rest).len() == 0);
            assert(e =~= enc3(b0, b1, b2));
            assert(e.len() == 4);
            assert(seq![b0, b1, b2] =~= s);
        } else {
            assert(b64_encode(rest).len() >= 4);
            assert(e.len() > 4);
            assert(e[0] == b64_char(x0) && e[1] == b64_char(x1) && e[2] == b64_char(x2) && e[3]
                == b64_char(x3));
            assert(e.skip(4) =~= b64_encode(rest));
            assert(seq![b0, b1, b2] + rest =~= s);
        }
    }
}

/// Executable alphabet lookup, matching `b64_char`.
fn b64c(x: u8) -> (r: u8)
    requires
        x < 64,
    ensures
        r == b64_char(x),
{
    if x < 26 {
        65 + x
    } else if x < 52 {
        97 + (x - 26)
    } else if x < 62 {
        48 + (x - 52)
    } else if x == 62 {
        43
    } else {
        47
    }
}

/// Executable inverse lookup, matching `b64_val`.
fn b64v(c: u8) -> (r: Option<u8>)
    ensures
        r == b64_val(c),
{
    if 65 <= c && c <= 90 {
        Some(c - 65)
    } else if 97 <= c && c <= 122 {
        Some(26 + (c - 97))
    } else if 48 <= c && c <= 57 {
        Some(52 + (c - 48))
    } else if c == 43 {
        Some(62)
    } else if c == 47 {
        Some(63)
    } else {
        None
    }
}

/// Encodes `data`, matching `b64_encode`. Total: never fails.
pub fn encode(data: &Vec<u8>) -> (out: Vec<u8>)
    ensures
        out@ == b64_encode(data@),
{
    let len = data.len();
    let mut out: Vec<u8> = Vec::new();
    let mut i: usize = 0;
    proof {
        assert(data@.skip(0) =~= data@);
        assert(Seq::<u8>::empty() + b64_encode(data@) =~= b64_encode(data@));
    }
    while len - i >= 3
        invariant
            i <= len,
            len == data@.len(),
            b64_encode(data@) == out@ + b64_encode(data@.skip(i as int)),
        decreases len - i,
    {
        let d0 = data[i];
        let d1 = data[i + 1];
        let d2 = data[i + 2];
        proof {
            assert(d0 >> 2 < 64 && ((d0 & 3) << 4) | (d1 >> 4) < 64 && ((d1 & 15) << 2) | (d2
                >> 6) < 64 && d2 & 63 < 64) by (bit_vector);
        }
        let ghost prev = out@;
        out.push(b64c(d0 >> 2));
        out.push(b64c(((d0 & 3) << 4) | (d1 >> 4)));
        out.push(b64c(((d1 & 15) << 2) | (d2 >> 6)));
        out.push(b64c(d2 & 63));
        proof {
            let rest = data@.skip(i as int);
            assert(rest[0] == d0 && rest[1] == d1 && rest[2] == d2);
            assert(rest.skip(3) =~= data@.skip(i + 3));
            assert(out@ =~= prev + enc3(d0, d1, d2));
            assert(prev + (enc3(d0, d1, d2) + b64_encode(data@.skip(i + 3))) =~= (prev + enc3(
                d0,
                d1,
                d2,
            )) + b64_encode(data@.skip(i + 3)));
        }
        i += 3;
    }
    let rem = len - i;
    if rem == 1 {
        let d0 = data[i];
        proof {
            assert(d0 >> 2 < 64 && (d0 & 3) << 4 < 64) by (bit_vector);
            assert(data@.skip(i as int)[0] == d0);
        }
        let ghost prev = out@;
        out.push(b64c(d0 >> 2));
        out.push(b64c((d0 & 3) << 4));
        out.push(61);
        out.push(61);
        proof {
            assert(out@ =~= prev + enc1(d0));
        }
    } else if rem == 2 {
        let d0 = data[i];
        let d1 = data[i + 1];
        proof {
            assert(d0 >> 2 < 64 && ((d0 & 3) << 4) | (d1 >> 4) < 64 && (d1 & 15) << 2 < 64)
                by (bit_vector);
            assert(data@.skip(i as int)[0] == d0 && data@.skip(i as int)[1] == d1);
        }
        let ghost prev = out@;
        out.push(b64c(d0 >> 2));
        out.push(b64c(((d0 & 3) << 4) | (d1 >> 4)));
        out.push(b64c((d1 & 15) << 2));
        out.push(61);
        proof {
            assert(out@ =~= prev + enc2(d0, d1));
        }
    } else {
        proof {
            assert(data@.skip(i as int) =~= Seq::empty());
            assert(out@ + Seq::<u8>::empty() =~= out@);
        }
    }
    out
}

/// Decodes `data`, matching `b64_decode`: `Some` exactly when the input is a
/// well-formed encoding, and then the bytes it encodes.
pub fn decode(data: &Vec<u8>) -> (r: Option<Vec<u8>>)
    ensures
        match r {
            Some(v) => b64_decode(data@) == Some(v@),
            None => b64_decode(data@) is None,
        },
{
    let len = data.len();
    if len == 0 {
        let out: Vec<u8> = Vec::new();
        proof {
            assert(b64_decode(data@) == Some(Seq::<u8>::empty()));
        }
        return Some(out);
    }
    let mut out: Vec<u8> = Vec::new();
    let mut i: usize = 0;
    proof {
        assert(data@.skip(0) =~= data@);
        match b64_decode(data@) {
            Some(q) => {
                assert(Seq::<u8>::empty() + q =~= q);
            },
            None => {},
        }
    }
    while len - i > 4
        invariant
            i < len,
            len == data@.len(),
            len > 0,
            b64_decode(data@) == (match b64_decode(data@.skip(i as int)) {
                Some(q) => Some(out@ + q),
                None => None::<Seq<u8>>,
            }),
        decreases len - i,
    {
        let c0 = data[i];
        let c1 = data[i + 1];
        let c2 = data[i + 2];
        let c3 = data[i + 3];
        let v0 = b64v(c0);
        let v1 = b64v(c1);
        let v2 = b64v(c2);
        let v3 = b64v(c3);
        proof {
            let rest = data@.skip(i as int);
            assert(rest.len() > 4);
            assert(rest[0] == c0 && rest[1] == c1 && rest[2] == c2 && rest[3] == c3);
            assert(rest.skip(4) =~= data@.skip(i + 4));
        }
        if v0.is_none() || v1.is_none() || v2.is_none() || v3.is_none() {
            proof {
                assert(b64_decode(data@.skip(i as int)) is None);
            }
            return None;
        }
        let x0 = v0.unwrap();
        let x1 = v1.unwrap();
        let x2 = v2.unwrap();
        let x3 = v3.unwrap();
        let ghost prev = out@;
        out.push((x0 << 2) | (x1 >> 4));
        out.push(((x1 & 15) << 4) | (x2 >> 2));
        out.push(((x2 & 3) << 6) | x3);
        proof {
            let g = seq![(x0 << 2) | (x1 >> 4), ((x1 & 15) << 4) | (x2 >> 2), ((x2 & 3) << 6) | x3];
            assert(out@ =~= prev + g);
            match b64_decode(data@.skip(i + 4)) {
                Some(q) => {
                    assert(b64_decode(data@.skip(i as int)) == Some(g + q));
                    assert(prev + (g + q) =~= (prev + g) + q);
                },
                None => {
                    assert(b64_decode(data@.skip(i as int)) is None);
                },
            }
        }
        i += 4;
    }
    // what is left is the final group, or a length that no encoding has
    let rem = len - i;
    if rem != 4 {
        proof {
            let rest = data@.skip(i as int);
            assert(rest.len() == rem);
            assert(rest.len() != 0 && rest.len() < 4);
            assert(b64_decode(rest) is None);
        }
        return None;
    }
    let c0 = data[i];
    let c1 = data[i + 1];
    let c2 = data[i + 2];
    let c3 = data[i + 3];
    proof {
        let rest = data@.skip(i as int);
        assert(rest.len() == 4);
        assert(rest[0] == c0 && rest[1] == c1 && rest[2] == c2 && rest[3] == c3);
        assert(b64_decode(rest) == dec_group(c0, c1, c2, c3));
    }
    let v0 = b64v(c0);
    let v1 = b64v(c1);
    if v0.is_none() || v1.is_none() {
        return None;
    }
    let x0 = v0.unwrap();
    let x1 = v1.unwrap();
    if c2 == 61 && c3 == 61 {
        let ghost prev = out@;
        out.push((x0 << 2) | (x1 >> 4));
        proof {
            assert(out@ =~= prev + seq![(x0 << 2) | (x1 >> 4)]);
        }
        return Some(out);
    }
    if c2 == 61 {
        return None;
    }
    let v2 = b64v(c2);
    if v2.is_none() {
        return None;
    }
    let x2 = v2.unwrap();
    if c3 == 61 {
        let ghost prev = out@;
        out.push((x0 << 2) | (x1 >> 4));
        out.push(((x1 & 15) << 4) | (x2 >> 2));
        proof {
            assert(out@ =~= prev + seq![(x0 << 2) | (x1 >> 4), ((x1 & 15) << 4) | (x2 >> 2)]);
        }
        return Some(out);
    }
    let v3 = b64v(c3);
    if v3.is_none() {
        return None;
    }
    let x3 = v3.unwrap();
    let ghost prev = out@;
    out.push((x0 << 2) | (x1 >> 4));
    out.push(((x1 & 15) << 4) | (x2 >> 2));
    out.push(((x2 & 3) << 6) | x3);
    proof {
        assert(out@ =~= prev + seq![
            (x0 << 2) | (x1 >> 4),
            ((x1 & 15) << 4) | (x2 >> 2),
            ((x2 & 3) << 6) | x3,
        ]);
    }
    Some(out)
}

} // verus!
