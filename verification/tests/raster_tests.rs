use rotatron::lookup::Rotation;
use rotatron::raster::{ImageAsset, PixelLayout};

fn asset(width: u32, height: u32, layout: PixelLayout, data: Vec<u8>) -> ImageAsset {
    ImageAsset { width, height, layout, data }
}

#[test]
fn bytes_per_pixel_of_each_layout() {
    assert_eq!(PixelLayout::L8.bpp(), 1);
    assert_eq!(PixelLayout::La8.bpp(), 2);
    assert_eq!(PixelLayout::Rgb8.bpp(), 3);
    assert_eq!(PixelLayout::Rgba8.bpp(), 4);
    assert_eq!(PixelLayout::L16.bpp(), 2);
    assert_eq!(PixelLayout::La16.bpp(), 4);
    assert_eq!(PixelLayout::Rgb16.bpp(), 6);
    assert_eq!(PixelLayout::Rgba16.bpp(), 8);
    assert_eq!(PixelLayout::Rgb32F.bpp(), 12);
    assert_eq!(PixelLayout::Rgba32F.bpp(), 16);
}

#[test]
fn quarter_turn_swaps_dimensions() {
    let a = asset(3, 2, PixelLayout::L8, vec![1, 2, 3, 4, 5, 6]);
    let b = a.rotate(Rotation::Quarter);
    assert_eq!(b.width, 2);
    assert_eq!(b.height, 3);
    let c = a.rotate(Rotation::ThreeQuarter);
    assert_eq!(c.width, 2);
    assert_eq!(c.height, 3);
}

#[test]
fn half_turn_keeps_dimensions() {
    let a = asset(3, 2, PixelLayout::L8, vec![1, 2, 3, 4, 5, 6]);
    let b = a.rotate(Rotation::Half);
    assert_eq!(b.width, 3);
    assert_eq!(b.height, 2);
}

#[test]
fn quarter_turn_exact_pixels() {
    // one column of two rgb pixels: a above b
    let a = asset(1, 2, PixelLayout::Rgb8, vec![1, 2, 3, 4, 5, 6]);
    let b = a.rotate(Rotation::Quarter);
    // clockwise, the bottom pixel lands on the left of one row
    assert_eq!(b.width, 2);
    assert_eq!(b.height, 1);
    assert_eq!(b.data, vec![4, 5, 6, 1, 2, 3]);
}

#[test]
fn three_quarter_turn_exact_pixels() {
    let a = asset(1, 2, PixelLayout::Rgb8, vec![1, 2, 3, 4, 5, 6]);
    let b = a.rotate(Rotation::ThreeQuarter);
    // counter-clockwise, the top pixel lands on the left of one row
    assert_eq!(b.width, 2);
    assert_eq!(b.height, 1);
    assert_eq!(b.data, vec![1, 2, 3, 4, 5, 6]);
}

#[test]
fn half_turn_exact_pixels() {
    let a = asset(2, 1, PixelLayout::Rgb8, vec![1, 2, 3, 4, 5, 6]);
    let b = a.rotate(Rotation::Half);
    assert_eq!((b.width, b.height), (2, 1));
    assert_eq!(b.data, vec![4, 5, 6, 1, 2, 3]);
}

#[test]
fn quarter_then_three_quarter_restores_source() {
    let data: Vec<u8> = (0..24).collect();
    let a = asset(3, 2, PixelLayout::Rgba8, data.clone());
    let c = a.rotate(Rotation::Quarter).rotate(Rotation::ThreeQuarter);
    assert_eq!((c.width, c.height), (3, 2));
    assert_eq!(c.layout, PixelLayout::Rgba8);
    assert_eq!(c.data, data);
}

#[test]
fn half_turn_twice_restores_source() {
    let data: Vec<u8> = (10..22).collect();
    let a = asset(2, 3, PixelLayout::La8, data.clone());
    let c = a.rotate(Rotation::Half).rotate(Rotation::Half);
    assert_eq!((c.width, c.height), (2, 3));
    assert_eq!(c.data, data);
}

#[test]
fn rotating_an_empty_image_is_harmless() {
    let a = asset(0, 0, PixelLayout::Rgb8, vec![]);
    let b = a.rotate(Rotation::Quarter);
    assert_eq!((b.width, b.height), (0, 0));
    assert_eq!(b.data, Vec::<u8>::new());
}
