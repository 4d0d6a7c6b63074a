use rotatron::codec::ImageKind;
use rotatron::lookup::{classify, Rotation};
use rotatron::pipeline::{prepare, transform, transform_decoded, RotateError};
use rotatron::raster::{ImageAsset, PixelLayout};
use rotatron::resolve::{first_image, Attachment, MessageView};
use rotatron::text::{caption_for, output_name};

fn png_bytes(img: &image::RgbaImage) -> Vec<u8> {
    let mut cur = std::io::Cursor::new(Vec::new());
    img.write_to(&mut cur, image::ImageFormat::Png).unwrap();
    cur.into_inner()
}

fn decoded_rgba(bytes: &[u8]) -> image::RgbaImage {
    image::load_from_memory_with_format(bytes, image::ImageFormat::Png).unwrap().to_rgba8()
}

#[test]
fn prepare_builds_the_job() {
    let aref = rotatron::resolve::AttachmentRef {
        url: String::from("https://cdn.h/att/cat.png"),
        author_mention: String::from("<@9>"),
    };
    let job = prepare(&aref, Rotation::Half).unwrap();
    assert_eq!(job.url, String::from("https://cdn.h/att/cat.png"));
    assert_eq!(job.file_name, String::from("cat.png"));
    assert_eq!(job.kind, ImageKind::Png);
    assert_eq!(job.rotation, Rotation::Half);
    assert_eq!(job.author_mention, String::from("<@9>"));
}

#[test]
fn prepare_rejects_url_without_slash() {
    let aref = rotatron::resolve::AttachmentRef {
        url: String::from("cat.png"),
        author_mention: String::from("<@9>"),
    };
    assert_eq!(prepare(&aref, Rotation::Half).unwrap_err(), RotateError::BadUrl);
}

#[test]
fn prepare_rejects_unknown_suffix() {
    let aref = rotatron::resolve::AttachmentRef {
        url: String::from("https://cdn.h/att/cat.xyz"),
        author_mention: String::from("<@9>"),
    };
    assert_eq!(prepare(&aref, Rotation::Half).unwrap_err(), RotateError::UnknownFormat);
    let hidden = rotatron::resolve::AttachmentRef {
        url: String::from("https://cdn.h/att/.png"),
        author_mention: String::from("<@9>"),
    };
    assert_eq!(prepare(&hidden, Rotation::Half).unwrap_err(), RotateError::UnknownFormat);
}

#[test]
fn suffix_case_is_ignored() {
    let aref = rotatron::resolve::AttachmentRef {
        url: String::from("https://cdn.h/att/CAT.PNG"),
        author_mention: String::from("<@9>"),
    };
    let job = prepare(&aref, Rotation::Quarter).unwrap();
    assert_eq!(job.kind, ImageKind::Png);
    assert_eq!(job.file_name, String::from("CAT.PNG"));
}

#[test]
fn half_turn_reaction_end_to_end() {
    let src = image::RgbaImage::from_raw(2, 2, (0u8..16).collect()).unwrap();
    let bytes = png_bytes(&src);
    let msg = MessageView {
        author_mention: String::from("<@9>"),
        attachments: vec![Attachment {
            url: String::from("https://cdn.h/att/cat.png"),
            width: Some(2),
            height: Some(2),
        }],
    };

    let rot = classify("🔄").unwrap();
    assert_eq!(rot, Rotation::Half);
    let aref = first_image(&msg).unwrap();
    let job = prepare(&aref, rot).unwrap();
    let out = transform(&bytes, job.kind, job.rotation).unwrap();

    assert_eq!(output_name(&job.file_name), String::from("ROTATED_cat.png"));
    assert_eq!(caption_for(&job.author_mention), String::from("Rotated image from <@9>"));

    let turned = decoded_rgba(&out);
    let expected = image::imageops::rotate180(&src);
    assert_eq!(turned.dimensions(), (2, 2));
    assert_eq!(turned.into_raw(), expected.into_raw());
}

#[test]
fn quarter_turn_matches_the_image_crate() {
    let src = image::RgbaImage::from_raw(3, 2, (0u8..24).collect()).unwrap();
    let bytes = png_bytes(&src);
    let out = transform(&bytes, ImageKind::Png, Rotation::Quarter).unwrap();
    let turned = decoded_rgba(&out);
    let expected = image::imageops::rotate90(&src);
    assert_eq!(turned.dimensions(), (2, 3));
    assert_eq!(turned.into_raw(), expected.into_raw());
}

#[test]
fn three_quarter_turn_matches_the_image_crate() {
    let src = image::RgbaImage::from_raw(3, 2, (100u8..124).collect()).unwrap();
    let bytes = png_bytes(&src);
    let out = transform(&bytes, ImageKind::Png, Rotation::ThreeQuarter).unwrap();
    let turned = decoded_rgba(&out);
    let expected = image::imageops::rotate270(&src);
    assert_eq!(turned.dimensions(), (2, 3));
    assert_eq!(turned.into_raw(), expected.into_raw());
}

#[test]
fn garbage_bytes_fail_to_decode() {
    let bytes: Vec<u8> = vec![0, 1, 2, 3, 4, 5, 6, 7];
    assert_eq!(
        transform(&bytes, ImageKind::Png, Rotation::Half).unwrap_err(),
        RotateError::DecodeFailed
    );
}

#[test]
fn unencodable_rotation_is_reported() {
    // the bmp encoder takes no 16-bit buffers
    let img = ImageAsset { width: 1, height: 1, layout: PixelLayout::L16, data: vec![7, 7] };
    assert_eq!(
        transform_decoded(&img, ImageKind::Bmp, Rotation::Half).unwrap_err(),
        RotateError::EncodeFailed
    );
}

#[test]
fn two_reactions_each_produce_their_own_repost() {
    let src = image::RgbaImage::from_raw(2, 1, vec![1, 2, 3, 4, 5, 6, 7, 8]).unwrap();
    let bytes = png_bytes(&src);
    let first = transform(&bytes, ImageKind::Png, Rotation::Half).unwrap();
    let second = transform(&bytes, ImageKind::Png, Rotation::Half).unwrap();
    assert_eq!(first, second);
    assert_eq!(decoded_rgba(&first).into_raw(), image::imageops::rotate180(&src).into_raw());
}
