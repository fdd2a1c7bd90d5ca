//! Small text-building helpers: the UTF-8 bytes of string literals and
//! decimal formatting, both used when the report body is assembled.

use vstd::prelude::*;

verus! {

use vstd::string::StrSliceExecFns;
use vstd::string::StringSliceAdditionalSpecFns;

/// The UTF-8 bytes of a string slice, as a spec-level sequence.
pub open spec fn lit(s: &str) -> Seq<u8> {
    s.spec_bytes()
}

/// Appends the UTF-8 bytes of `s` to `out`.
pub fn push_str_bytes(out: &mut Vec<u8>, s: &str)
    ensures
        final(out)@ == old(out)@ + lit(s),
{
    let mut v = s.as_bytes_vec();
    out.append(&mut v);
}

/// The decimal digits of `n`, most significant first, as ASCII bytes.
pub open spec fn spec_dec(n: nat) -> Seq<u8>
    decreases n,
{
    if n < 10 {
        seq![(48 + n) as u8]
    } else {
        spec_dec(n / 10).push((48 + n % 10) as u8)
    }
}

/// Formats `n` in decimal, matching `spec_dec`.
pub fn dec_u64(n: u64) -> (v: Vec<u8>)
    ensures
        v@ == spec_dec(n as nat),
    decreases n,
{
    if n < 10 {
        let v: Vec<u8> = vec![48 + (n as u8)];
        proof {
            assert(v@ =~= spec_dec(n as nat));
        }
        v
    } else {
        let mut v = dec_u64(n / 10);
        v.push(48 + ((n % 10) as u8));
        v
    }
}

/// Appends the decimal digits of `n` to `out`.
pub fn push_dec(out: &mut Vec<u8>, n: u64)
    ensures
        final(out)@ == old(out)@ + spec_dec(n as nat),
{
    let mut v = dec_u64(n);
    out.append(&mut v);
}

} // verus!
