//! The rotation pipeline: everything between a resolved attachment and the
//! bytes that are posted back.
//!
//! A run is a linear one-shot sequence: derive the file name from the url,
//! infer the container format from its suffix, decode the downloaded bytes,
//! rotate, and re-encode in the same format. Every failure is a value of
//! `RotateError` and aborts only the invocation it arose in; the caller logs
//! it and the process carries on.

use vstd::prelude::*;
use vstd::string::*;
use crate::codec::{
    decode_image, decoded_of, encode_image, encoded_of, kind_of_name, spec_kind_of_name, ImageKind,
};
use crate::lookup::Rotation;
use crate::raster::{rot_height, rot_width, rotated_data, ImageAsset};
use crate::resolve::AttachmentRef;
use crate::text::{file_name_of, spec_file_name};

verus! {

/// Why one pipeline invocation was abandoned.
#[derive(Clone, Copy, Debug, PartialEq, Eq, Structural)]
pub enum RotateError {
    /// The attachment url holds no `/`, so no file name can be derived.
    BadUrl,
    /// The file name's suffix names no supported container format.
    UnknownFormat,
    /// The downloaded bytes do not decode in the format the suffix named.
    DecodeFailed,
    /// The rotated buffer could not be re-encoded in the source format.
    EncodeFailed,
}

impl RotateError {
    /// A short description of the failure, for the operator's log.
    pub fn describe(&self) -> (r: String)
        ensures
            self is BadUrl ==> r@ == "attachment url has no file name"@,
            self is UnknownFormat ==> r@ == "file suffix names no supported format"@,
            self is DecodeFailed ==> r@ == "image bytes do not decode in the named format"@,
            self is EncodeFailed ==> r@ == "rotated image could not be re-encoded"@,
    {
        match self {
            RotateError::BadUrl => String::from_str("attachment url has no file name"),
            RotateError::UnknownFormat => String::from_str("file suffix names no supported format"),
            RotateError::DecodeFailed => String::from_str(
                "image bytes do not decode in the named format",
            ),
            RotateError::EncodeFailed => String::from_str("rotated image could not be re-encoded"),
        }
    }
}

/// Everything one rotation run needs once the reaction is classified and the
/// attachment resolved.
#[derive(Debug)]
pub struct RotationJob {
    pub url: String,
    pub file_name: String,
    pub kind: ImageKind,
    pub rotation: Rotation,
    pub author_mention: String,
}

/// Derives the file name and the container format for one run from the
/// resolved attachment. Succeeds exactly when the url has a final path
/// segment whose suffix names a supported format; otherwise says which of
/// the two derivations failed.
pub fn prepare(aref: &AttachmentRef, rotation: Rotation) -> (r: Result<RotationJob, RotateError>)
    ensures
        match r {
            Ok(job) => {
                &&& spec_file_name(aref.url@) == Some(job.file_name@)
                &&& spec_kind_of_name(job.file_name@) == Some(job.kind)
                &&& job.url@ == aref.url@
                &&& job.rotation == rotation
                &&& job.author_mention@ == aref.author_mention@
            },
            Err(e) => match spec_file_name(aref.url@) {
                Some(name) => e is UnknownFormat && spec_kind_of_name(name) is None,
                None => e is BadUrl,
            },
        },
{
    let name = match file_name_of(aref.url.as_str()) {
        Some(n) => n,
        None => return Err(RotateError::BadUrl),
    };
    let kind = match kind_of_name(name.as_str()) {
        Some(k) => k,
        None => return Err(RotateError::UnknownFormat),
    };
    Ok(
        RotationJob {
            url: aref.url.clone(),
            file_name: name,
            kind,
            rotation,
            author_mention: aref.author_mention.clone(),
        },
    )
}

/// Rotates an already decoded image and re-encodes it in the container
/// format `kind`. Fails exactly when the encoder yields nothing for the
/// rotated buffer.
pub fn transform_decoded(img: &ImageAsset, kind: ImageKind, rotation: Rotation) -> (r: Result<
    Vec<u8>,
    RotateError,
>)
    requires
        img.wf(),
    ensures
        ({
            let out_spec = encoded_of(
                rot_width(img.width as int, img.height as int, rotation) as nat,
                rot_height(img.width as int, img.height as int, rotation) as nat,
                img.layout,
                rotated_data(
                    img.width as int,
                    img.height as int,
                    img.layout.spec_bpp() as int,
                    img.data@,
                    rotation,
                ),
                kind,
            );
            match r {
                Ok(out) => out_spec == Some(out@),
                Err(e) => e is EncodeFailed && out_spec is None,
            }
        }),
{
    let turned = img.rotate(rotation);
    match encode_image(&turned, kind) {
        Some(v) => Ok(v),
        None => Err(RotateError::EncodeFailed),
    }
}

/// The data step of one pipeline run: decodes the downloaded bytes in the
/// format the file suffix named, rotates the pixels, and re-encodes the
/// result in the same format. Fails exactly when the bytes do not decode or
/// the rotated buffer cannot be encoded.
pub fn transform(bytes: &Vec<u8>, kind: ImageKind, rotation: Rotation) -> (r: Result<
    Vec<u8>,
    RotateError,
>)
    ensures
        match decoded_of(bytes@, kind) {
            Some(d) => {
                let out_spec = encoded_of(
                    rot_width(d.0 as int, d.1 as int, rotation) as nat,
                    rot_height(d.0 as int, d.1 as int, rotation) as nat,
                    d.2,
                    rotated_data(d.0 as int, d.1 as int, d.2.spec_bpp() as int, d.3, rotation),
                    kind,
                );
                match r {
                    Ok(out) => out_spec == Some(out@),
                    Err(e) => e is EncodeFailed && out_spec is None,
                }
            },
            None => r matches Err(RotateError::DecodeFailed),
        },
{
    let img = match decode_image(bytes, kind) {
        Some(i) => i,
        None => return Err(RotateError::DecodeFailed),
    };
    transform_decoded(&img, kind, rotation)
}

} // verus!
