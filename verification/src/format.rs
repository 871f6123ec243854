//! Image formats: the ones an archive accepts, and how a file's leading
//! bytes are matched to one of them.

use vstd::prelude::*;

verus! {

/// An image format that may be packed into an archive.
#[derive(Clone, Copy, Debug, PartialEq, Eq, Structural)]
pub enum ImageFormat {
    Jpeg,
    Png,
    Gif,
    WebP,
}

/// What the signature at the start of a file says about it.
#[derive(Clone, Copy, Debug, PartialEq, Eq, Structural)]
pub enum Sniffed {
    Jpeg,
    Png,
    Gif,
    WebP,
    /// A known image format that archives do not accept.
    Other,
    /// No known signature.
    Unknown,
}

/// The format that `image::guess_format` reports for a buffer.
pub uninterp spec fn sniffed(bytes: Seq<u8>) -> Sniffed;

/// The eight bytes with which a PNG file starts.
pub open spec fn png_signature() -> Seq<u8> {
    seq![0x89u8, 0x50u8, 0x4eu8, 0x47u8, 0x0du8, 0x0au8, 0x1au8, 0x0au8]
}

/// The three bytes with which a JPEG file starts.
pub open spec fn jpeg_signature() -> Seq<u8> {
    seq![0xffu8, 0xd8u8, 0xffu8]
}

/// `GIF89a`, the start of a GIF file of the later version.
pub open spec fn gif89_signature() -> Seq<u8> {
    seq![0x47u8, 0x49u8, 0x46u8, 0x38u8, 0x39u8, 0x61u8]
}

/// `GIF87a`, the start of a GIF file of the earlier version.
pub open spec fn gif87_signature() -> Seq<u8> {
    seq![0x47u8, 0x49u8, 0x46u8, 0x38u8, 0x37u8, 0x61u8]
}

/// `RIFF`, the start of a RIFF container.
pub open spec fn riff_tag() -> Seq<u8> {
    seq![0x52u8, 0x49u8, 0x46u8, 0x46u8]
}

/// `WEBP`, the type of a RIFF container that holds a WebP image.
pub open spec fn webp_tag() -> Seq<u8> {
    seq![0x57u8, 0x45u8, 0x42u8, 0x50u8]
}

/// Whether a buffer starts like a WebP file: `RIFF`, four bytes of any
/// value for the size, then `WEBP`.
pub open spec fn has_webp_signature(bytes: Seq<u8>) -> bool {
    bytes.len() >= 12 && bytes.subrange(0, 4) == riff_tag() && bytes.subrange(8, 12) == webp_tag()
}

/// Whether a buffer starts like a GIF file of either version.
pub open spec fn has_gif_signature(bytes: Seq<u8>) -> bool {
    gif89_signature().is_prefix_of(bytes) || gif87_signature().is_prefix_of(bytes)
}

/// The accepted format whose signature a buffer starts with, if any. The
/// signatures exclude each other.
pub open spec fn signature_format(bytes: Seq<u8>) -> Option<ImageFormat> {
    if png_signature().is_prefix_of(bytes) {
        Some(ImageFormat::Png)
    } else if jpeg_signature().is_prefix_of(bytes) {
        Some(ImageFormat::Jpeg)
    } else if has_gif_signature(bytes) {
        Some(ImageFormat::Gif)
    } else if has_webp_signature(bytes) {
        Some(ImageFormat::WebP)
    } else {
        None
    }
}

/// Whether `image::load_from_memory_with_format` decodes a buffer.
pub uninterp spec fn decodable(bytes: Seq<u8>, format: ImageFormat) -> bool;

/// The accepted format behind a signature, if there is one.
pub open spec fn supported(s: Sniffed) -> Option<ImageFormat> {
    match s {
        Sniffed::Jpeg => Some(ImageFormat::Jpeg),
        Sniffed::Png => Some(ImageFormat::Png),
        Sniffed::Gif => Some(ImageFormat::Gif),
        Sniffed::WebP => Some(ImageFormat::WebP),
        Sniffed::Other => None,
        Sniffed::Unknown => None,
    }
}

/// The file extension under which a format is stored.
pub open spec fn extension_of(format: ImageFormat) -> Seq<char> {
    match format {
        ImageFormat::Jpeg => "jpg"@,
        ImageFormat::Png => "png"@,
        ImageFormat::Gif => "gif"@,
        ImageFormat::WebP => "webp"@,
    }
}

/// Calls `image::guess_format` on the buffer. Trusted: the result is a
/// function of the bytes alone, named `sniffed`; each of the four accepted
/// formats is reported exactly for the buffers that start with its
/// signature, which the crate tries before all others; every other
/// recognised format becomes `Other`, and a buffer without a known
/// signature becomes `Unknown`.
#[verifier::external_body]
pub(crate) fn sniff(bytes: &[u8]) -> (s: Sniffed)
    ensures
        s == sniffed(bytes@),
        s == Sniffed::Png <==> png_signature().is_prefix_of(bytes@),
        s == Sniffed::Jpeg <==> jpeg_signature().is_prefix_of(bytes@),
        s == Sniffed::Gif <==> has_gif_signature(bytes@),
        s == Sniffed::WebP <==> has_webp_signature(bytes@),
{
    match image::guess_format(bytes) {
        Ok(image::ImageFormat::Jpeg) => Sniffed::Jpeg,
        Ok(image::ImageFormat::Png) => Sniffed::Png,
        Ok(image::ImageFormat::Gif) => Sniffed::Gif,
        Ok(image::ImageFormat::WebP) => Sniffed::WebP,
        Ok(_) => Sniffed::Other,
        Err(_) => Sniffed::Unknown,
    }
}

/// Calls `image::load_from_memory_with_format`, which decodes the whole
/// image. Trusted: whether it succeeds is a function of the bytes and the
/// format alone, named `decodable`.
#[verifier::external_body]
pub(crate) fn decodes(bytes: &[u8], format: ImageFormat) -> (ok: bool)
    ensures
        ok == decodable(bytes@, format),
{
    let outside = match format {
        ImageFormat::Jpeg => image::ImageFormat::Jpeg,
        ImageFormat::Png => image::ImageFormat::Png,
        ImageFormat::Gif => image::ImageFormat::Gif,
        ImageFormat::WebP => image::ImageFormat::WebP,
    };
    image::load_from_memory_with_format(bytes, outside).is_ok()
}

/// Calls `image::ImageFormat::extensions_str` and takes its first entry.
/// Trusted: for the four accepted formats that entry is `jpg`, `png`, `gif`
/// and `webp`.
#[verifier::external_body]
fn first_extension(format: ImageFormat) -> (ext: &'static str)
    ensures
        ext@ == extension_of(format),
{
    let outside = match format {
        ImageFormat::Jpeg => image::ImageFormat::Jpeg,
        ImageFormat::Png => image::ImageFormat::Png,
        ImageFormat::Gif => image::ImageFormat::Gif,
        ImageFormat::WebP => image::ImageFormat::WebP,
    };
    outside.extensions_str()[0]
}

impl ImageFormat {
    /// The canonical file extension of the format, without a dot.
    pub fn extension(self) -> (ext: &'static str)
        ensures
            ext@ == extension_of(self),
    {
        first_extension(self)
    }
}

/// Applies the list of accepted formats to a sniffed signature.
pub fn supported_format(s: Sniffed) -> (format: Option<ImageFormat>)
    ensures
        format == supported(s),
{
    match s {
        Sniffed::Jpeg => Some(ImageFormat::Jpeg),
        Sniffed::Png => Some(ImageFormat::Png),
        Sniffed::Gif => Some(ImageFormat::Gif),
        Sniffed::WebP => Some(ImageFormat::WebP),
        Sniffed::Other => None,
        Sniffed::Unknown => None,
    }
}

} // verus!
