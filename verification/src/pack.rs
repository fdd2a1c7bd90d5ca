//! Icon Packer: assembles an ordered list of encoded raster buffers into one
//! multi-resolution icon container. The container is a 6-byte header
//! declaring the entry count, one fixed 16-byte directory entry per image in
//! input order, and the concatenated payload bytes in the same order. Each
//! entry records width, height, bits per pixel, payload size and payload
//! offset; offsets are header size + directory size + the sizes of the
//! preceding payloads. Directory metadata is read back from each payload's
//! own header, and every payload must report one common color depth.

use vstd::prelude::*;

verus! {

use crate::png::{RasterMeta, spec_raster_meta, raster_meta, be32};

/// The views of a list of byte buffers.
pub open spec fn views(pngs: Seq<Vec<u8>>) -> Seq<Seq<u8>> {
    pngs.map_values(|p: Vec<u8>| p@)
}

/// Little-endian bytes of a 16-bit value.
pub open spec fn le16(x: int) -> Seq<u8> {
    seq![(x % 256) as u8, ((x / 256) % 256) as u8]
}

/// Little-endian bytes of a 32-bit value.
pub open spec fn le32(x: int) -> Seq<u8> {
    seq![
        (x % 256) as u8,
        ((x / 256) % 256) as u8,
        ((x / 65536) % 256) as u8,
        ((x / 16777216) % 256) as u8,
    ]
}

/// A directory dimension byte: 0 stands for 256.
pub open spec fn dim_byte(d: int) -> u8
    recommends
        1 <= d <= 256,
{
    if d == 256 {
        0u8
    } else {
        d as u8
    }
}

/// The 6-byte container header: reserved, resource type 1, entry count.
pub open spec fn spec_header(count: int) -> Seq<u8> {
    seq![0u8, 0u8, 1u8, 0u8] + le16(count)
}

/// One 16-byte directory entry: width byte, height byte, color-count byte,
/// reserved byte, planes, bits per pixel, payload size, payload offset.
pub open spec fn spec_entry(m: RasterMeta, size: int, offset: int) -> Seq<u8> {
    seq![dim_byte(m.width as int), dim_byte(m.height as int), 0u8, 0u8] + le16(0) + le16(
        m.bits_per_pixel as int,
    ) + le32(size) + le32(offset)
}

/// The directory metadata of a payload that `spec_raster_meta` accepts.
pub open spec fn meta_of(p: Seq<u8>) -> RasterMeta {
    spec_raster_meta(p)->Some_0
}

/// The payload can stand in the container: its header is readable and its
/// dimensions fit a directory dimension byte.
pub open spec fn entry_ok(p: Seq<u8>) -> bool {
    &&& spec_raster_meta(p) is Some
    &&& meta_of(p).width <= 256
    &&& meta_of(p).height <= 256
}

/// Total size of the payloads before index `i`.
pub open spec fn sum_len(pngs: Seq<Seq<u8>>, i: int) -> int
    decreases i,
{
    if i <= 0 {
        0
    } else {
        sum_len(pngs, i - 1) + pngs[i - 1].len()
    }
}

/// Payload offset of entry `i`: header, directory, preceding payloads.
pub open spec fn spec_offset(pngs: Seq<Seq<u8>>, i: int) -> int {
    6 + 16 * pngs.len() + sum_len(pngs, i)
}

/// The packer accepts the input: every payload is readable and fits, all
/// payloads report one color depth, the entry count fits the header's
/// 16-bit field, and every offset fits a directory entry's 32-bit field.
pub open spec fn spec_pack_ok(pngs: Seq<Seq<u8>>) -> bool {
    &&& pngs.len() <= 0xFFFF
    &&& forall|i: int| 0 <= i < pngs.len() ==> #[trigger] entry_ok(pngs[i])
    &&& forall|i: int|
        0 <= i < pngs.len() ==> #[trigger] meta_of(pngs[i]).bits_per_pixel == meta_of(
            pngs[0],
        ).bits_per_pixel
    &&& 6 + 16 * pngs.len() + sum_len(pngs, pngs.len() as int) <= 0xFFFFFFFF
}

/// The first `i` directory entries, concatenated.
pub open spec fn spec_entries(pngs: Seq<Seq<u8>>, i: int) -> Seq<u8>
    decreases i,
{
    if i <= 0 {
        Seq::empty()
    } else {
        spec_entries(pngs, i - 1) + spec_entry(
            meta_of(pngs[i - 1]),
            pngs[i - 1].len() as int,
            spec_offset(pngs, i - 1),
        )
    }
}

/// The first `i` payloads, concatenated.
pub open spec fn spec_payloads(pngs: Seq<Seq<u8>>, i: int) -> Seq<u8>
    decreases i,
{
    if i <= 0 {
        Seq::empty()
    } else {
        spec_payloads(pngs, i - 1) + pngs[i - 1]
    }
}

/// The whole container: header, directory, payloads.
pub open spec fn spec_container(pngs: Seq<Seq<u8>>) -> Seq<u8> {
    spec_header(pngs.len() as int) + spec_entries(pngs, pngs.len() as int) + spec_payloads(
        pngs,
        pngs.len() as int,
    )
}

/// Preceding-payload sizes only grow with the index.
pub proof fn lemma_sum_len_mono(pngs: Seq<Seq<u8>>, i: int, j: int)
    requires
        0 <= i <= j,
    ensures
        sum_len(pngs, i) <= sum_len(pngs, j),
    decreases j - i,
{
    if i < j {
        lemma_sum_len_mono(pngs, i, j - 1);
    }
}

/// The directory is 16 bytes per entry.
pub proof fn lemma_entries_len(pngs: Seq<Seq<u8>>, i: int)
    requires
        0 <= i,
    ensures
        spec_entries(pngs, i).len() == 16 * i,
    decreases i,
{
    if i > 0 {
        lemma_entries_len(pngs, i - 1);
    }
}

/// The concatenated payloads take exactly the summed sizes.
pub proof fn lemma_payloads_len(pngs: Seq<Seq<u8>>, i: int)
    requires
        0 <= i,
    ensures
        spec_payloads(pngs, i).len() == sum_len(pngs, i),
    decreases i,
{
    if i > 0 {
        lemma_payloads_len(pngs, i - 1);
    }
}

/// The container's directory arithmetic: payloads sit back to back, each
/// recorded offset region lies inside the buffer, offsets grow strictly
/// with the entry index, and no two payload regions overlap.
pub proof fn lemma_container_layout(pngs: Seq<Seq<u8>>)
    requires
        spec_pack_ok(pngs),
    ensures
        spec_container(pngs).len() == 6 + 16 * pngs.len() + sum_len(pngs, pngs.len() as int),
        forall|i: int|
            0 <= i < pngs.len() ==> #[trigger] spec_offset(pngs, i) + pngs[i].len() == spec_offset(
                pngs,
                i + 1,
            ),
        forall|i: int|
            0 <= i < pngs.len() ==> spec_offset(pngs, i) < #[trigger] spec_offset(pngs, i + 1),
        forall|i: int|
            0 <= i < pngs.len() ==> #[trigger] spec_offset(pngs, i) + pngs[i].len()
                <= spec_container(pngs).len(),
        forall|i: int, j: int|
            0 <= i < j < pngs.len() ==> #[trigger] spec_offset(pngs, i) + pngs[i].len()
                <= #[trigger] spec_offset(pngs, j),
{
    let n = pngs.len() as int;
    lemma_entries_len(pngs, n);
    lemma_payloads_len(pngs, n);
    assert forall|i: int| 0 <= i < n implies #[trigger] spec_offset(pngs, i) + pngs[i].len()
        == spec_offset(pngs, i + 1) by {
        assert(sum_len(pngs, i + 1) == sum_len(pngs, i) + pngs[i].len());
    }
    assert forall|i: int| 0 <= i < n implies spec_offset(pngs, i) < #[trigger] spec_offset(
        pngs,
        i + 1,
    ) by {
        assert(entry_ok(pngs[i]));
        assert(pngs[i].len() >= 33);
        assert(sum_len(pngs, i + 1) == sum_len(pngs, i) + pngs[i].len());
    }
    assert forall|i: int| 0 <= i < n implies #[trigger] spec_offset(pngs, i) + pngs[i].len()
        <= spec_container(pngs).len() by {
        assert(sum_len(pngs, i + 1) == sum_len(pngs, i) + pngs[i].len());
        lemma_sum_len_mono(pngs, i + 1, n);
    }
    assert forall|i: int, j: int| 0 <= i < j < n implies #[trigger] spec_offset(pngs, i)
        + pngs[i].len() <= #[trigger] spec_offset(pngs, j) by {
        assert(sum_len(pngs, i + 1) == sum_len(pngs, i) + pngs[i].len());
        lemma_sum_len_mono(pngs, i + 1, j);
    }
}

/// A payload's bytes stand unchanged in every longer payload run.
proof fn lemma_payload_in_prefix(pngs: Seq<Seq<u8>>, i: int, j: int)
    requires
        0 <= i < j,
    ensures
        spec_payloads(pngs, j).subrange(
            sum_len(pngs, i),
            sum_len(pngs, i) + pngs[i].len(),
        ) == pngs[i],
    decreases j,
{
    lemma_payloads_len(pngs, i);
    lemma_payloads_len(pngs, j);
    if j == i + 1 {
        assert(spec_payloads(pngs, j).subrange(sum_len(pngs, i), sum_len(pngs, i) + pngs[i].len())
            =~= pngs[i]);
    } else {
        lemma_payload_in_prefix(pngs, i, j - 1);
        lemma_payloads_len(pngs, j - 1);
        lemma_sum_len_mono(pngs, i + 1, j - 1);
        assert(sum_len(pngs, i) + pngs[i].len() == sum_len(pngs, i + 1));
        assert(spec_payloads(pngs, j).subrange(sum_len(pngs, i), sum_len(pngs, i) + pngs[i].len())
            =~= spec_payloads(pngs, j - 1).subrange(
            sum_len(pngs, i),
            sum_len(pngs, i) + pngs[i].len(),
        ));
    }
}

/// A consumer finds payload `i` exactly at the offset its directory entry
/// records: the container's bytes there are that payload, unchanged.
pub proof fn lemma_payload_at_offset(pngs: Seq<Seq<u8>>, i: int)
    requires
        spec_pack_ok(pngs),
        0 <= i < pngs.len(),
    ensures
        spec_container(pngs).subrange(
            spec_offset(pngs, i),
            spec_offset(pngs, i) + pngs[i].len(),
        ) == pngs[i],
{
    let n = pngs.len() as int;
    lemma_entries_len(pngs, n);
    lemma_payloads_len(pngs, n);
    lemma_payload_in_prefix(pngs, i, n);
    lemma_sum_len_mono(pngs, i + 1, n);
    assert(sum_len(pngs, i) + pngs[i].len() == sum_len(pngs, i + 1));
    lemma_sum_len_mono(pngs, 0, i);
    assert(spec_container(pngs).subrange(spec_offset(pngs, i), spec_offset(pngs, i) + pngs[i].len())
        =~= spec_payloads(pngs, n).subrange(sum_len(pngs, i), sum_len(pngs, i) + pngs[i].len()));
}

/// Appends one 16-byte directory entry, matching `spec_entry`.
#[verifier::rlimit(50)]
fn push_entry(out: &mut Vec<u8>, m: RasterMeta, sz: u64, off: u64)
    requires
        1 <= m.width <= 256,
        1 <= m.height <= 256,
    ensures
        final(out)@ == old(out)@ + spec_entry(m, sz as int, off as int),
{
    let wb = if m.width == 256 {
        0u8
    } else {
        m.width as u8
    };
    let hb = if m.height == 256 {
        0u8
    } else {
        m.height as u8
    };
    out.push(wb);
    out.push(hb);
    out.push(0);
    out.push(0);
    out.push(0);
    out.push(0);
    out.push((m.bits_per_pixel % 256) as u8);
    out.push(((m.bits_per_pixel / 256) % 256) as u8);
    out.push((sz % 256) as u8);
    out.push(((sz / 256) % 256) as u8);
    out.push(((sz / 65536) % 256) as u8);
    out.push(((sz / 16777216) % 256) as u8);
    out.push((off % 256) as u8);
    out.push(((off / 256) % 256) as u8);
    out.push(((off / 65536) % 256) as u8);
    out.push(((off / 16777216) % 256) as u8);
    proof {
        assert(final(out)@ =~= old(out)@ + spec_entry(m, sz as int, off as int));
    }
}

/// Packs the encoded rasters into one container, matching `spec_container`;
/// `None` exactly when the input fails `spec_pack_ok`.
#[verifier::rlimit(100)]
pub fn pack_icons(pngs: &Vec<Vec<u8>>) -> (r: Option<Vec<u8>>)
    ensures
        r is Some <==> spec_pack_ok(views(pngs@)),
        r matches Some(v) ==> v@ == spec_container(views(pngs@)),
{
    let ghost ps = views(pngs@);
    let n = pngs.len();
    proof {
        assert(ps.len() == n);
    }
    if n > 0xFFFF {
        return None;
    }
    // read back every payload's directory metadata
    let mut metas: Vec<RasterMeta> = Vec::new();
    let mut i: usize = 0;
    while i < n
        invariant
            i <= n,
            n <= 0xFFFF,
            n == pngs@.len(),
            ps == views(pngs@),
            metas@.len() == i,
            forall|k: int|
                0 <= k < i ==> #[trigger] entry_ok(ps[k]) && metas@[k] == meta_of(ps[k]) && 1
                    <= metas@[k].width && metas@[k].width <= 256 && 1 <= metas@[k].height
                    && metas@[k].height <= 256,
            forall|k: int|
                0 <= k < i ==> #[trigger] metas@[k].bits_per_pixel == meta_of(ps[0]).bits_per_pixel,
        decreases n - i,
    {
        proof {
            assert(ps[i as int] == pngs@[i as int]@);
        }
        let m_opt = raster_meta(&pngs[i]);
        match m_opt {
            None => {
                proof {
                    if spec_pack_ok(ps) {
                        assert(entry_ok(ps[i as int]));
                    }
                }
                return None;
            },
            Some(m) => {
                if m.width > 256 || m.height > 256 {
                    proof {
                        if spec_pack_ok(ps) {
                            assert(entry_ok(ps[i as int]));
                        }
                    }
                    return None;
                }
                if i > 0 {
                    let first = metas[0];
                    if m.bits_per_pixel != first.bits_per_pixel {
                        proof {
                            if spec_pack_ok(ps) {
                                assert(meta_of(ps[i as int]).bits_per_pixel == meta_of(
                                    ps[0],
                                ).bits_per_pixel);
                            }
                        }
                        return None;
                    }
                }
                proof {
                    assert(be32(ps[i as int], 16) <= 0xFFFFFFFF);
                    assert(be32(ps[i as int], 20) <= 0xFFFFFFFF);
                    assert(m.width >= 1 && m.height >= 1);
                }
                let ghost metas_pre = metas@;
                metas.push(m);
                proof {
                    assert forall|k: int|
                        0 <= k <= i implies #[trigger] entry_ok(ps[k]) && metas@[k] == meta_of(
                        ps[k],
                    ) && 1 <= metas@[k].width && metas@[k].width <= 256 && 1 <= metas@[k].height
                        && metas@[k].height <= 256 by {
                        if k < i {
                            assert(entry_ok(ps[k]));
                            assert(metas_pre[k] == meta_of(ps[k]));
                            assert(1 <= metas_pre[k].width && metas_pre[k].width <= 256);
                            assert(1 <= metas_pre[k].height && metas_pre[k].height <= 256);
                            assert(metas@[k] == metas_pre[k]);
                        } else {
                            assert(metas@[k] == m);
                            assert(spec_raster_meta(ps[k]) == Some(m));
                        }
                    }
                }
            },
        }
        i += 1;
    }
    // check that every recorded offset fits the directory's 32-bit field
    let mut total: u64 = 6 + 16 * (n as u64);
    let mut i: usize = 0;
    while i < n
        invariant
            i <= n,
            n <= 0xFFFF,
            n == pngs@.len(),
            ps == views(pngs@),
            total == 6 + 16 * (n as int) + sum_len(ps, i as int),
            total <= 0xFFFFFFFF,
        decreases n - i,
    {
        proof {
            assert(ps[i as int] == pngs@[i as int]@);
        }
        let sz = pngs[i].len();
        if (sz as u64) > 0xFFFFFFFFu64 - total {
            proof {
                lemma_sum_len_mono(ps, i + 1, ps.len() as int);
            }
            return None;
        }
        total = total + (sz as u64);
        i += 1;
    }
    proof {
        assert forall|k: int| 0 <= k < n implies #[trigger] meta_of(ps[k]).bits_per_pixel
            == meta_of(ps[0]).bits_per_pixel by {
            assert(entry_ok(ps[k]) && metas@[k] == meta_of(ps[k]));
            assert(metas@[k].bits_per_pixel == meta_of(ps[0]).bits_per_pixel);
        }
        assert(spec_pack_ok(ps));
    }
    // header
    let mut out: Vec<u8> = Vec::new();
    out.push(0);
    out.push(0);
    out.push(1);
    out.push(0);
    out.push((n % 256) as u8);
    out.push(((n / 256) % 256) as u8);
    proof {
        assert(out@ =~= spec_header(n as int));
    }
    // directory
    let mut off: u64 = 6 + 16 * (n as u64);
    let mut i: usize = 0;
    while i < n
        invariant
            i <= n,
            n <= 0xFFFF,
            n == pngs@.len(),
            ps == views(pngs@),
            6 + 16 * (n as int) + sum_len(ps, n as int) <= 0xFFFFFFFF,
            metas@.len() == n,
            forall|k: int|
                0 <= k < n ==> #[trigger] entry_ok(ps[k]) && metas@[k] == meta_of(ps[k]) && 1
                    <= metas@[k].width && metas@[k].width <= 256 && 1 <= metas@[k].height
                    && metas@[k].height <= 256,
            off == spec_offset(ps, i as int),
            out@ == spec_header(n as int) + spec_entries(ps, i as int),
        decreases n - i,
    {
        proof {
            assert(ps[i as int] == pngs@[i as int]@);
            assert(entry_ok(ps[i as int]));
            assert(metas@[i as int] == meta_of(ps[i as int]));
            assert(1 <= metas@[i as int].width && metas@[i as int].width <= 256);
            assert(1 <= metas@[i as int].height && metas@[i as int].height <= 256);
            assert(sum_len(ps, i + 1) == sum_len(ps, i as int) + ps[i as int].len());
            lemma_sum_len_mono(ps, i + 1, ps.len() as int);
            lemma_sum_len_mono(ps, 0, i as int);
        }
        let m = metas[i];
        let sz = pngs[i].len() as u64;
        let ghost prev = out@;
        push_entry(&mut out, m, sz, off);
        proof {
            let h = spec_header(n as int);
            let ei = spec_entries(ps, i as int);
            let e = spec_entry(meta_of(ps[i as int]), ps[i as int].len() as int, spec_offset(
                ps,
                i as int,
            ));
            assert(spec_entries(ps, i + 1) == ei + e);
            vstd::seq_lib::lemma_concat_associative(h, ei, e);
        }
        off = off + sz;
        i += 1;
    }
    // payloads
    let mut i: usize = 0;
    proof {
        assert(out@ + Seq::<u8>::empty() =~= out@);
    }
    let ghost front = out@;
    while i < n
        invariant
            i <= n,
            n == pngs@.len(),
            ps == views(pngs@),
            front == spec_header(n as int) + spec_entries(ps, n as int),
            out@ == front + spec_payloads(ps, i as int),
        decreases n - i,
    {
        proof {
            assert(ps[i as int] == pngs@[i as int]@);
        }
        let ghost base = out@;
        let mut j: usize = 0;
        let plen = pngs[i].len();
        while j < plen
            invariant
                j <= plen,
                i < n,
                n == pngs@.len(),
                plen == pngs@[i as int]@.len(),
                out@ == base + pngs@[i as int]@.subrange(0, j as int),
            decreases plen - j,
        {
            let b = pngs[i][j];
            out.push(b);
            proof {
                assert(base + pngs@[i as int]@.subrange(0, j as int) + seq![b] =~= base
                    + pngs@[i as int]@.subrange(0, j + 1));
            }
            j += 1;
        }
        proof {
            assert(pngs@[i as int]@.subrange(0, plen as int) =~= pngs@[i as int]@);
            assert(base + ps[i as int] =~= front + spec_payloads(ps, i + 1));
        }
        i += 1;
    }
    proof {
        assert(out@ == spec_container(ps));
    }
    Some(out)
}

} // verus!
