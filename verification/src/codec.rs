//! The container formats the bot handles, and the trusted boundary to the
//! image crate that decodes and re-encodes them.
//!
//! The format of an attachment is inferred from its file-name suffix, never
//! from the bytes themselves; an unrecognized suffix is a data failure, not
//! a silent misdecode. Decoding and encoding are the image crate's work and
//! stand behind the two wrappers at the bottom; everything in between is
//! verified against the names `decoded_of` and `encoded_of` for their
//! results.

use vstd::prelude::*;
use crate::raster::{ImageAsset, PixelLayout};
use crate::text::{extension_of, lower_matches, matches_lower, spec_extension};

verus! {

/// A container format the bot can decode and re-encode.
#[derive(Clone, Copy, Debug, PartialEq, Eq, Structural)]
pub enum ImageKind {
    Png,
    Jpeg,
    Gif,
    WebP,
    Bmp,
}

/// The format a file-name suffix names, compared without regard to ASCII
/// case: `png`, `jpg`/`jpeg`, `gif`, `webp` and `bmp`.
pub open spec fn spec_kind_of_ext(ext: Seq<char>) -> Option<ImageKind> {
    if lower_matches(ext, "png"@) {
        Some(ImageKind::Png)
    } else if lower_matches(ext, "jpg"@) || lower_matches(ext, "jpeg"@) {
        Some(ImageKind::Jpeg)
    } else if lower_matches(ext, "gif"@) {
        Some(ImageKind::Gif)
    } else if lower_matches(ext, "webp"@) {
        Some(ImageKind::WebP)
    } else if lower_matches(ext, "bmp"@) {
        Some(ImageKind::Bmp)
    } else {
        None
    }
}

/// The format named by the suffix of `name`, if `name` has a suffix and the
/// suffix names one.
pub open spec fn spec_kind_of_name(name: Seq<char>) -> Option<ImageKind> {
    match spec_extension(name) {
        Some(ext) => spec_kind_of_ext(ext),
        None => None,
    }
}

/// Infers the container format of a file from its name's suffix.
pub fn kind_of_name(name: &str) -> (r: Option<ImageKind>)
    ensures
        r == spec_kind_of_name(name@),
{
    match extension_of(name) {
        Some(ext) => {
            let e = ext.as_str();
            if matches_lower(e, "png") {
                Some(ImageKind::Png)
            } else if matches_lower(e, "jpg") || matches_lower(e, "jpeg") {
                Some(ImageKind::Jpeg)
            } else if matches_lower(e, "gif") {
                Some(ImageKind::Gif)
            } else if matches_lower(e, "webp") {
                Some(ImageKind::WebP)
            } else if matches_lower(e, "bmp") {
                Some(ImageKind::Bmp)
            } else {
                None
            }
        },
        None => None,
    }
}

#[verifier::external_type_specification]
#[verifier::external_body]
pub struct ExImageFormat(image::ImageFormat);

#[verifier::external_type_specification]
#[verifier::external_body]
pub struct ExColorType(image::ColorType);

/// What decoding `bytes` in format `kind` yields: the width, height, pixel
/// layout and raw buffer of the decoded image, or nothing when the bytes do
/// not decode or use a color this library does not model. The image crate's
/// decoders read nothing but their input, so this is a function of the two
/// arguments alone.
pub uninterp spec fn decoded_of(bytes: Seq<u8>, kind: ImageKind) -> Option<
    (nat, nat, PixelLayout, Seq<u8>),
>;

/// What encoding a raw buffer with the given dimensions and pixel layout in
/// format `kind` yields, or nothing when the encoder does not support that
/// combination. The image crate's encoders read nothing but their input, so
/// this is a function of the five arguments alone.
pub uninterp spec fn encoded_of(
    width: nat,
    height: nat,
    layout: PixelLayout,
    data: Seq<u8>,
    kind: ImageKind,
) -> Option<Seq<u8>>;

/// Relies on image::ImageFormat: picks the variant that stands for `kind`.
#[verifier::external_body]
fn format_repr(kind: ImageKind) -> image::ImageFormat {
    match kind {
        ImageKind::Png => image::ImageFormat::Png,
        ImageKind::Jpeg => image::ImageFormat::Jpeg,
        ImageKind::Gif => image::ImageFormat::Gif,
        ImageKind::WebP => image::ImageFormat::WebP,
        ImageKind::Bmp => image::ImageFormat::Bmp,
    }
}

/// Relies on image::ColorType: maps each color this library models to the
/// layout of the same name, whose bytes per pixel equal
/// ColorType::bytes_per_pixel; any other color maps to nothing.
#[verifier::external_body]
fn layout_repr(color: image::ColorType) -> Option<PixelLayout> {
    match color {
        image::ColorType::L8 => Some(PixelLayout::L8),
        image::ColorType::La8 => Some(PixelLayout::La8),
        image::ColorType::Rgb8 => Some(PixelLayout::Rgb8),
        image::ColorType::Rgba8 => Some(PixelLayout::Rgba8),
        image::ColorType::L16 => Some(PixelLayout::L16),
        image::ColorType::La16 => Some(PixelLayout::La16),
        image::ColorType::Rgb16 => Some(PixelLayout::Rgb16),
        image::ColorType::Rgba16 => Some(PixelLayout::Rgba16),
        image::ColorType::Rgb32F => Some(PixelLayout::Rgb32F),
        image::ColorType::Rgba32F => Some(PixelLayout::Rgba32F),
        _ => None,
    }
}

/// Relies on image::ColorType: picks the color of the same name as `layout`,
/// the inverse of the mapping decoding uses.
#[verifier::external_body]
fn color_repr(layout: PixelLayout) -> image::ColorType {
    match layout {
        PixelLayout::L8 => image::ColorType::L8,
        PixelLayout::La8 => image::ColorType::La8,
        PixelLayout::Rgb8 => image::ColorType::Rgb8,
        PixelLayout::Rgba8 => image::ColorType::Rgba8,
        PixelLayout::L16 => image::ColorType::L16,
        PixelLayout::La16 => image::ColorType::La16,
        PixelLayout::Rgb16 => image::ColorType::Rgb16,
        PixelLayout::Rgba16 => image::ColorType::Rgba16,
        PixelLayout::Rgb32F => image::ColorType::Rgb32F,
        PixelLayout::Rgba32F => image::ColorType::Rgba32F,
    }
}

/// Relies on image::load_from_memory_with_format: decodes `bytes` in the
/// container format that stands for `kind`. The decoder reads nothing but
/// its arguments, and the raw buffer of a decoded image holds exactly
/// width * height * bytes-per-pixel bytes.
#[verifier::external_body]
pub(crate) fn decode_image(bytes: &Vec<u8>, kind: ImageKind) -> (r: Option<ImageAsset>)
    ensures
        match r {
            Some(img) => img.wf() && decoded_of(bytes@, kind) == Some(
                (img.width as nat, img.height as nat, img.layout, img.data@),
            ),
            None => decoded_of(bytes@, kind) is None,
        },
{
    let img = match image::load_from_memory_with_format(bytes.as_slice(), format_repr(kind)) {
        Ok(i) => i,
        Err(_) => return None,
    };
    let layout = match layout_repr(img.color()) {
        Some(l) => l,
        None => return None,
    };
    let data = img.as_bytes().to_vec();
    Some(ImageAsset { width: img.width(), height: img.height(), layout, data })
}

/// Relies on image::write_buffer_with_format: encodes the raw buffer of
/// `img` in the container format that stands for `kind`. The encoder reads
/// nothing but its arguments; it panics on a buffer whose length does not
/// match the dimensions and color, which well-formedness rules out.
#[verifier::external_body]
pub(crate) fn encode_image(img: &ImageAsset, kind: ImageKind) -> (r: Option<Vec<u8>>)
    requires
        img.wf(),
    ensures
        match r {
            Some(out) => encoded_of(
                img.width as nat,
                img.height as nat,
                img.layout,
                img.data@,
                kind,
            ) == Some(out@),
            None => encoded_of(
                img.width as nat,
                img.height as nat,
                img.layout,
                img.data@,
                kind,
            ) is None,
        },
{
    let mut cursor = std::io::Cursor::new(Vec::new());
    match image::write_buffer_with_format(
        &mut cursor,
        img.data.as_slice(),
        img.width,
        img.height,
        color_repr(img.layout),
        format_repr(kind),
    ) {
        Ok(()) => Some(cursor.into_inner()),
        Err(_) => None,
    }
}

} // verus!
