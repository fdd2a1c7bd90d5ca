//! Turns one uploaded vector-graphics document into a multi-resolution icon
//! bundle: the upload is sniffed, rendered at a fixed set of square pixel
//! sizes, each raster is packed into one icon container file, and every
//! artifact is embedded inline in an HTML report.
//!
//! Rendering itself is delegated to an external engine; this crate holds the
//! verified pipeline around it: the format sniffer, the raster-header reader,
//! the icon container layout, the inline data references and the report.

pub mod text;
pub mod sniff;
pub mod b64;
pub mod png;
pub mod pack;
pub mod report;
pub mod pipeline;
