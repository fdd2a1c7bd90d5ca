//! Artifact Presenter: inline data references and the conversion report.
//! A data reference is a content-type preamble, an encoding marker, and the
//! buffer's bytes in the reversible text encoding; the report is the fixed
//! surrounding text with the labeled references in render order.

use vstd::prelude::*;

verus! {

use vstd::seq_lib::lemma_concat_associative;
use crate::text::{lit, spec_dec, push_str_bytes, push_dec};
use crate::b64::{b64_encode, b64_decode, encode, lemma_round_trip};
use crate::pack::views;

/// An inline data reference: preamble, content type, encoding marker, and
/// the encoded payload.
pub open spec fn spec_data_url(ct: Seq<u8>, data: Seq<u8>) -> Seq<u8> {
    lit("data:") + ct + lit(";base64,") + b64_encode(data)
}

/// Decoding the encoded tail of an inline reference recovers the referenced
/// buffer exactly, whatever the buffer holds.
pub proof fn lemma_data_url_round_trip(ct: Seq<u8>, data: Seq<u8>)
    ensures
        b64_decode(
            spec_data_url(ct, data).skip(
                (lit("data:").len() + ct.len() + lit(";base64,").len()) as int,
            ),
        ) == Some(data),
{
    assert(spec_data_url(ct, data).skip((lit("data:").len() + ct.len() + lit(";base64,").len()) as int)
        =~= b64_encode(data));
    lemma_round_trip(data);
}

/// Builds an inline data reference, matching `spec_data_url`.
pub fn make_data_url(content_type: &str, data: &Vec<u8>) -> (r: Vec<u8>)
    ensures
        r@ == spec_data_url(lit(content_type), data@),
{
    let mut out: Vec<u8> = Vec::new();
    push_str_bytes(&mut out, "data:");
    push_str_bytes(&mut out, content_type);
    push_str_bytes(&mut out, ";base64,");
    let mut e = encode(data);
    proof {
        assert(Seq::<u8>::empty() + lit("data:") =~= lit("data:"));
    }
    out.append(&mut e);
    out
}

/// One labeled preview line of the report.
pub open spec fn spec_img_line(url: Seq<u8>) -> Seq<u8> {
    lit("Image           : <img class=\"preview\" src=\"") + url + lit(
        "\" alt=\"original image\" />\n",
    )
}

/// Appends one preview line, matching `spec_img_line` of the data reference.
fn push_img_line(out: &mut Vec<u8>, content_type: &str, data: &Vec<u8>)
    ensures
        final(out)@ == old(out)@ + spec_img_line(spec_data_url(lit(content_type), data@)),
{
    let ghost pre = out@;
    let ghost l1 = lit("Image           : <img class=\"preview\" src=\"");
    let ghost l2 = lit("\" alt=\"original image\" />\n");
    push_str_bytes(out, "Image           : <img class=\"preview\" src=\"");
    let mut url = make_data_url(content_type, data);
    let ghost u = url@;
    out.append(&mut url);
    push_str_bytes(out, "\" alt=\"original image\" />\n");
    proof {
        lemma_concat_associative(pre, l1 + u, l2);
        lemma_concat_associative(pre, l1, u);
    }
}

/// The fixed text that opens the report body.
pub open spec fn spec_above() -> Seq<u8> {
    lit(
        "<html><head><link href=\"https://cdn.jsdelivr.net/npm/bootstrap@5.3.3/dist/css/bootstrap.min.css\" rel=\"stylesheet\" integrity=\"sha384-QWTKZyjpPEjISv5WaRU9OFeRpok6YctnYmDr5pNlyT2bRjXh0JMhjY6hW+ALEwIH\" crossorigin=\"anonymous\" /><style>img.preview {max-width:128px;max-height:128px;vertical-align:top;border:1px solid black;background-color:eee; }</style><title>Result</title></head><body><div class=\"container\"><pre>",
    )
}

/// The fixed text that closes the report body.
pub open spec fn spec_below() -> Seq<u8> {
    lit(
        "</pre><p><a class=\"btn btn-outline-primary\" href=\"/\">Make another</a></p></div></body></html>",
    )
}

/// The progress lines and preview of one render target, in report order.
pub open spec fn spec_size_block(size: nat, png: Seq<u8>) -> Seq<u8> {
    lit("Generating      : ") + spec_dec(size) + lit("x") + spec_dec(size) + lit(" image\n")
        + spec_img_line(spec_data_url(lit("image/png"), png))
}

/// The blocks of the first `i` render targets, in configured order.
pub open spec fn spec_blocks(sizes: Seq<u32>, pngs: Seq<Seq<u8>>, i: int) -> Seq<u8>
    decreases i,
{
    if i <= 0 {
        Seq::empty()
    } else {
        spec_blocks(sizes, pngs, i - 1) + spec_size_block(sizes[i - 1] as nat, pngs[i - 1])
    }
}

/// The whole report body: the opening template; the upload's content type,
/// size and preview; one block per render target, in configured order; the
/// container's preview and download affordance; the closing template.
pub open spec fn spec_report(
    ct: Seq<u8>,
    data: Seq<u8>,
    sizes: Seq<u32>,
    pngs: Seq<Seq<u8>>,
    icon: Seq<u8>,
) -> Seq<u8> {
    spec_above() + lit("Content-Type    : ") + ct + lit("\n") + lit("Upload size     : ")
        + spec_dec(data.len()) + lit(" bytes\n") + spec_img_line(spec_data_url(ct, data))
        + spec_blocks(sizes, pngs, sizes.len() as int) + lit("Generating      : ICO file\n") + lit(
        "Icon            : <img class=\"preview\" src=\"",
    ) + spec_data_url(lit("image/ico"), icon) + lit("\" alt=\"original image\" />\n") + lit(
        "Complete!\n",
    ) + lit("                  <a class=\"btn btn-primary\" href=\"") + spec_data_url(
        lit("image/ico"),
        icon,
    ) + lit("\" download=\"favicon.ico\">Download</a>\n") + spec_below()
}

/// Builds the report body, matching `spec_report` for the given artifacts.
#[verifier::rlimit(100)]
pub fn build_report(
    content_type: &str,
    data: &Vec<u8>,
    sizes: &Vec<u32>,
    pngs: &Vec<Vec<u8>>,
    icon: &Vec<u8>,
) -> (r: Vec<u8>)
    requires
        sizes@.len() == pngs@.len(),
        data@.len() <= u64::MAX,
    ensures
        r@ == spec_report(lit(content_type), data@, sizes@, views(pngs@), icon@),
{
    let ghost ct = lit(content_type);
    let mut out: Vec<u8> = Vec::new();
    push_str_bytes(
        &mut out,
        "<html><head><link href=\"https://cdn.jsdelivr.net/npm/bootstrap@5.3.3/dist/css/bootstrap.min.css\" rel=\"stylesheet\" integrity=\"sha384-QWTKZyjpPEjISv5WaRU9OFeRpok6YctnYmDr5pNlyT2bRjXh0JMhjY6hW+ALEwIH\" crossorigin=\"anonymous\" /><style>img.preview {max-width:128px;max-height:128px;vertical-align:top;border:1px solid black;background-color:eee; }</style><title>Result</title></head><body><div class=\"container\"><pre>",
    );
    proof {
        assert(Seq::<u8>::empty() + spec_above() =~= spec_above());
    }
    push_str_bytes(&mut out, "Content-Type    : ");
    push_str_bytes(&mut out, content_type);
    push_str_bytes(&mut out, "\n");
    push_str_bytes(&mut out, "Upload size     : ");
    push_dec(&mut out, data.len() as u64);
    push_str_bytes(&mut out, " bytes\n");
    push_img_line(&mut out, content_type, data);
    let ghost head = out@;
    proof {
        assert(head == spec_above() + lit("Content-Type    : ") + ct + lit("\n") + lit(
            "Upload size     : ",
        ) + spec_dec(data@.len()) + lit(" bytes\n") + spec_img_line(spec_data_url(ct, data@)));
        assert(head + Seq::<u8>::empty() =~= head);
    }
    let mut i: usize = 0;
    let n = sizes.len();
    while i < n
        invariant
            i <= n,
            n == sizes@.len(),
            n == pngs@.len(),
            out@ == head + spec_blocks(sizes@, views(pngs@), i as int),
        decreases n - i,
    {
        let ghost pre = out@;
        let ghost l1 = lit("Generating      : ");
        let ghost lx = lit("x");
        let ghost l2 = lit(" image\n");
        let ghost d = spec_dec(sizes@[i as int] as nat);
        let ghost img = spec_img_line(spec_data_url(lit("image/png"), pngs@[i as int]@));
        let size = sizes[i];
        push_str_bytes(&mut out, "Generating      : ");
        push_dec(&mut out, size as u64);
        push_str_bytes(&mut out, "x");
        push_dec(&mut out, size as u64);
        push_str_bytes(&mut out, " image\n");
        push_img_line(&mut out, "image/png", &pngs[i]);
        proof {
            assert(views(pngs@)[i as int] == pngs@[i as int]@);
            let block = spec_size_block(sizes@[i as int] as nat, views(pngs@)[i as int]);
            assert(block == l1 + d + lx + d + l2 + img);
            lemma_concat_associative(pre, l1 + d + lx + d + l2, img);
            lemma_concat_associative(pre, l1 + d + lx + d, l2);
            lemma_concat_associative(pre, l1 + d + lx, d);
            lemma_concat_associative(pre, l1 + d, lx);
            lemma_concat_associative(pre, l1, d);
            assert(pre + block == out@);
            lemma_concat_associative(head, spec_blocks(sizes@, views(pngs@), i as int), block);
            assert(spec_blocks(sizes@, views(pngs@), i + 1) == spec_blocks(
                sizes@,
                views(pngs@),
                i as int,
            ) + block);
        }
        i += 1;
    }
    push_str_bytes(&mut out, "Generating      : ICO file\n");
    push_str_bytes(&mut out, "Icon            : <img class=\"preview\" src=\"");
    let mut icon_url = make_data_url("image/ico", icon);
    let ghost iu = icon_url@;
    let ghost mid = out@;
    out.append(&mut icon_url);
    push_str_bytes(&mut out, "\" alt=\"original image\" />\n");
    push_str_bytes(&mut out, "Complete!\n");
    push_str_bytes(&mut out, "                  <a class=\"btn btn-primary\" href=\"");
    let mut icon_url2 = make_data_url("image/ico", icon);
    out.append(&mut icon_url2);
    push_str_bytes(&mut out, "\" download=\"favicon.ico\">Download</a>\n");
    push_str_bytes(
        &mut out,
        "</pre><p><a class=\"btn btn-outline-primary\" href=\"/\">Make another</a></p></div></body></html>",
    );
    out
}

} // verus!
