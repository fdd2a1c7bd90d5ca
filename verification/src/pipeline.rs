//! The conversion pipeline around the rendering engine: the input screen that
//! sniffs the upload, the fixed set of render targets, the assembly of the
//! rendered rasters into the container and the report, and the response
//! decision. Rendering itself happens outside this crate; the caller hands
//! its outcome in, and every decision about it is made here.

use vstd::prelude::*;

verus! {

use crate::sniff::{spec_sniff_ok, is_svg};
use crate::pack::{views, spec_pack_ok, spec_container, pack_icons};
use crate::report::{spec_report, build_report};
use crate::text::lit;

/// One error kind per pipeline stage. A failing stage aborts the request's
/// pipeline; the user sees one generic message for it and the re-offered
/// form.
#[derive(Debug, Clone, Copy, PartialEq, Eq, Structural)]
pub enum ConvertError {
    /// The upload was absent or empty; the pipeline was never entered.
    InputMissing,
    /// The upload failed the sniffer's plausibility check.
    SniffRejected,
    /// The rendering engine could not parse the upload as a vector document.
    DocumentParseError,
    /// The rendering engine could not render the parsed document.
    RenderError,
    /// A rendered pixel buffer could not be encoded.
    EncodeError,
    /// The encoded rasters could not be assembled into one container.
    PackError,
}

/// The fixed, ordered render targets.
pub open spec fn spec_icon_sizes() -> Seq<u32> {
    seq![16u32, 32u32, 64u32, 128u32]
}

/// The configured render targets, in the order artifacts are rendered and
/// container entries appear.
pub fn icon_sizes() -> (v: Vec<u32>)
    ensures
        v@ == spec_icon_sizes(),
{
    let v: Vec<u32> = vec![16, 32, 64, 128];
    proof {
        assert(v@ =~= spec_icon_sizes());
    }
    v
}

/// Screens an upload before any rendering: an absent or empty upload is
/// rejected as missing, one that fails the sniffer as implausible, and
/// every other upload passes.
pub fn check_upload(data: &Vec<u8>) -> (r: Result<(), ConvertError>)
    ensures
        data@.len() == 0 ==> r == Err::<(), ConvertError>(ConvertError::InputMissing),
        data@.len() > 0 && !spec_sniff_ok(data@) ==> r == Err::<(), ConvertError>(
            ConvertError::SniffRejected,
        ),
        data@.len() > 0 && spec_sniff_ok(data@) ==> r == Ok::<(), ConvertError>(()),
{
    if data.len() == 0 {
        return Err(ConvertError::InputMissing);
    }
    if !is_svg(data) {
        return Err(ConvertError::SniffRejected);
    }
    Ok(())
}

/// Assembles the rendered artifacts: packs the encoded rasters into the
/// container and builds the report that embeds the upload, each raster and
/// the container. Fails exactly when the packer rejects the rasters, and
/// then no partial container is returned.
pub fn assemble(content_type: &str, data: &Vec<u8>, pngs: &Vec<Vec<u8>>) -> (r: Result<
    Vec<u8>,
    ConvertError,
>)
    requires
        pngs@.len() == spec_icon_sizes().len(),
        data@.len() <= u64::MAX,
    ensures
        spec_pack_ok(views(pngs@)) ==> (r matches Ok(v) && v@ == spec_report(
            lit(content_type),
            data@,
            spec_icon_sizes(),
            views(pngs@),
            spec_container(views(pngs@)),
        )),
        !spec_pack_ok(views(pngs@)) ==> r == Err::<Vec<u8>, ConvertError>(ConvertError::PackError),
{
    let icon = match pack_icons(pngs) {
        Some(icon) => icon,
        None => {
            return Err(ConvertError::PackError);
        },
    };
    let sizes = icon_sizes();
    Ok(build_report(content_type, data, &sizes, pngs, &icon))
}

/// The response decision for one upload: the input screen first, then the
/// rendering outcome the caller observed, then assembly. Fail-fast: the
/// first failing stage decides, and rendering failures pass through
/// unchanged.
pub fn respond(
    content_type: &str,
    data: &Vec<u8>,
    rendered: &Result<Vec<Vec<u8>>, ConvertError>,
) -> (r: Result<Vec<u8>, ConvertError>)
    requires
        rendered matches Ok(pngs) ==> pngs@.len() == spec_icon_sizes().len(),
        data@.len() <= u64::MAX,
    ensures
        data@.len() == 0 ==> r == Err::<Vec<u8>, ConvertError>(ConvertError::InputMissing),
        data@.len() > 0 && !spec_sniff_ok(data@) ==> r == Err::<Vec<u8>, ConvertError>(
            ConvertError::SniffRejected,
        ),
        data@.len() > 0 && spec_sniff_ok(data@) ==> match rendered {
            Err(e) => r == Err::<Vec<u8>, ConvertError>(*e),
            Ok(pngs) => {
                &&& spec_pack_ok(views(pngs@)) ==> (r matches Ok(v) && v@ == spec_report(
                    lit(content_type),
                    data@,
                    spec_icon_sizes(),
                    views(pngs@),
                    spec_container(views(pngs@)),
                ))
                &&& !spec_pack_ok(views(pngs@)) ==> r == Err::<Vec<u8>, ConvertError>(
                    ConvertError::PackError,
                )
            },
        },
{
    if let Err(e) = check_upload(data) {
        return Err(e);
    }
    match rendered {
        Err(e) => Err(*e),
        Ok(pngs) => assemble(content_type, data, pngs),
    }
}

/// The fixed user-facing message of an error kind. Stage-generic on
/// purpose: no internal diagnostic reaches the response body.
pub fn error_message(e: ConvertError) -> (m: &'static str)
    ensures
        e == ConvertError::InputMissing ==> m@ == "You need to upload a file (file missing or empty)"@,
        e == ConvertError::SniffRejected ==> m@ == "This file does not look like an SVG file"@,
        e == ConvertError::DocumentParseError ==> m@ == "The upload could not be parsed as an SVG document"@,
        e == ConvertError::RenderError ==> m@ == "The image could not be rendered"@,
        e == ConvertError::EncodeError ==> m@ == "A rendered image could not be encoded"@,
        e == ConvertError::PackError ==> m@ == "The icon file could not be assembled"@,
{
    match e {
        ConvertError::InputMissing => "You need to upload a file (file missing or empty)",
        ConvertError::SniffRejected => "This file does not look like an SVG file",
        ConvertError::DocumentParseError => "The upload could not be parsed as an SVG document",
        ConvertError::RenderError => "The image could not be rendered",
        ConvertError::EncodeError => "A rendered image could not be encoded",
        ConvertError::PackError => "The icon file could not be assembled",
    }
}

} // verus!
