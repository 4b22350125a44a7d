//! Tests for the pixel sample types and their conversions.

use membench::pixel::{ColorKind, DynamicPixel, PixelError, PixelFormat, RgbTotals};

#[test]
fn from_color_supported_layouts() {
    assert_eq!(
        PixelFormat::from_color(&ColorKind::Rgb8),
        Ok(PixelFormat::Rgb8)
    );
    assert_eq!(
        PixelFormat::from_color(&ColorKind::Rgba8),
        Ok(PixelFormat::Rgba8)
    );
    assert_eq!(
        PixelFormat::from_color(&ColorKind::L8),
        Ok(PixelFormat::Gray8)
    );
    assert_eq!(
        PixelFormat::from_color(&ColorKind::Bgr8),
        Ok(PixelFormat::Bgr8)
    );
}

#[test]
fn from_color_rejects_everything_else() {
    let unsupported = [
        ColorKind::La8,
        ColorKind::L16,
        ColorKind::La16,
        ColorKind::Rgb16,
        ColorKind::Rgba16,
        ColorKind::Bgra8,
        ColorKind::Other,
    ];
    for c in unsupported {
        assert_eq!(
            PixelFormat::from_color(&c),
            Err(PixelError::UnsupportedEncoding)
        );
    }
}

#[test]
fn record_sizes() {
    assert_eq!(DynamicPixel::bytes(&PixelFormat::Rgb8), 3);
    assert_eq!(DynamicPixel::bytes(&PixelFormat::Rgba8), 4);
    assert_eq!(DynamicPixel::bytes(&PixelFormat::Gray8), 1);
    assert_eq!(DynamicPixel::bytes(&PixelFormat::Bgr8), 3);
}

#[test]
fn from_slice_tags_each_layout() {
    let rgb = vec![1u8, 2, 3];
    assert_eq!(
        DynamicPixel::from_slice(&PixelFormat::Rgb8, &rgb),
        DynamicPixel::Rgb8(1, 2, 3)
    );
    let rgba = vec![1u8, 2, 3, 4];
    assert_eq!(
        DynamicPixel::from_slice(&PixelFormat::Rgba8, &rgba),
        DynamicPixel::Rgba8(1, 2, 3, 4)
    );
    let gray = vec![9u8];
    assert_eq!(
        DynamicPixel::from_slice(&PixelFormat::Gray8, &gray),
        DynamicPixel::Luma8(9)
    );
    let bgr = vec![1u8, 2, 3];
    assert_eq!(
        DynamicPixel::from_slice(&PixelFormat::Bgr8, &bgr),
        DynamicPixel::Bgr8(1, 2, 3)
    );
}

#[test]
fn from_slice_reads_leading_bytes_of_longer_record() {
    let long = vec![5u8, 6, 7, 8, 9];
    assert_eq!(
        DynamicPixel::from_slice(&PixelFormat::Rgb8, &long),
        DynamicPixel::Rgb8(5, 6, 7)
    );
    assert_eq!(
        DynamicPixel::from_slice(&PixelFormat::Gray8, &long),
        DynamicPixel::Luma8(5)
    );
    assert_eq!(
        DynamicPixel::from_slice(&PixelFormat::Rgba8, &long),
        DynamicPixel::Rgba8(5, 6, 7, 8)
    );
}

#[test]
fn to_rgb_converts_every_variant() {
    assert_eq!(DynamicPixel::Rgb8(1, 2, 3).to_rgb(), (1, 2, 3));
    assert_eq!(DynamicPixel::Rgba8(1, 2, 3, 200).to_rgb(), (1, 2, 3));
    assert_eq!(DynamicPixel::Luma8(7).to_rgb(), (7, 7, 7));
    assert_eq!(DynamicPixel::Bgr8(1, 2, 3).to_rgb(), (3, 2, 1));
}

#[test]
fn totals_accumulate() {
    let mut t = RgbTotals::new();
    assert_eq!((t.red, t.green, t.blue), (0, 0, 0));
    t.add_rgb((10, 20, 30));
    t.add_rgb((1, 2, 3));
    assert_eq!((t.red, t.green, t.blue), (11, 22, 33));
}
