//! End-to-end tests of the three pixel-access strategies against
//! synthetic PNG images with known pixel values.

use image::codecs::png::PngEncoder;
use image::ColorType;

use membench::pixel::PixelError;
use membench::strategy::{
    load_image_buffer, load_image_incremental_dynamic, load_image_incremental_static,
};

fn encode_png(data: &[u8], w: u32, h: u32, color: ColorType) -> Vec<u8> {
    let mut out: Vec<u8> = Vec::new();
    PngEncoder::new(&mut out).encode(data, w, h, color).unwrap();
    out
}

fn rgb_2x2() -> Vec<u8> {
    let data: [u8; 12] = [1, 2, 3, 4, 5, 6, 7, 8, 9, 10, 11, 12];
    encode_png(&data, 2, 2, ColorType::Rgb8)
}

#[test]
fn cross_strategy_equivalence_on_rgb() {
    let file = rgb_2x2();
    let buffered = load_image_buffer(&file).unwrap();
    let fixed = load_image_incremental_static(&file).unwrap();
    let dynamic = load_image_incremental_dynamic(&file).unwrap();
    assert_eq!((buffered.red, buffered.green, buffered.blue), (22, 26, 30));
    assert_eq!(buffered, fixed);
    assert_eq!(fixed, dynamic);
}

#[test]
fn dynamic_replicates_gray() {
    let data: [u8; 4] = [10, 20, 30, 40];
    let file = encode_png(&data, 2, 2, ColorType::L8);
    let t = load_image_incremental_dynamic(&file).unwrap();
    assert_eq!((t.red, t.green, t.blue), (100, 100, 100));
}

#[test]
fn static_rejects_gray() {
    let data: [u8; 4] = [10, 20, 30, 40];
    let file = encode_png(&data, 2, 2, ColorType::L8);
    assert_eq!(
        load_image_incremental_static(&file),
        Err(PixelError::EncodingMismatch)
    );
}

#[test]
fn buffered_rejects_gray() {
    let data: [u8; 4] = [10, 20, 30, 40];
    let file = encode_png(&data, 2, 2, ColorType::L8);
    assert_eq!(load_image_buffer(&file), Err(PixelError::EncodingMismatch));
}

#[test]
fn dynamic_drops_alpha() {
    let data: [u8; 16] = [1, 2, 3, 255, 4, 5, 6, 0, 7, 8, 9, 128, 10, 11, 12, 1];
    let file = encode_png(&data, 2, 2, ColorType::Rgba8);
    let t = load_image_incremental_dynamic(&file).unwrap();
    assert_eq!((t.red, t.green, t.blue), (22, 26, 30));
}

#[test]
fn static_rejects_rgba() {
    let data: [u8; 16] = [1, 2, 3, 255, 4, 5, 6, 0, 7, 8, 9, 128, 10, 11, 12, 1];
    let file = encode_png(&data, 2, 2, ColorType::Rgba8);
    assert_eq!(
        load_image_incremental_static(&file),
        Err(PixelError::EncodingMismatch)
    );
}

#[test]
fn buffered_rejects_rgba() {
    let data: [u8; 16] = [1, 2, 3, 255, 4, 5, 6, 0, 7, 8, 9, 128, 10, 11, 12, 1];
    let file = encode_png(&data, 2, 2, ColorType::Rgba8);
    assert_eq!(load_image_buffer(&file), Err(PixelError::EncodingMismatch));
}

#[test]
fn sixteen_bit_gray_rejected_everywhere() {
    let data: [u8; 8] = [0, 10, 0, 20, 0, 30, 0, 40];
    let file = encode_png(&data, 2, 2, ColorType::L16);
    assert_eq!(
        load_image_incremental_dynamic(&file),
        Err(PixelError::UnsupportedEncoding)
    );
    assert_eq!(
        load_image_incremental_static(&file),
        Err(PixelError::EncodingMismatch)
    );
    assert_eq!(
        load_image_buffer(&file),
        Err(PixelError::UnsupportedEncoding)
    );
}

#[test]
fn garbage_bytes_fail_to_decode() {
    let file: Vec<u8> = b"this is not a portable network graphic".to_vec();
    assert_eq!(load_image_buffer(&file), Err(PixelError::DecodeFailed));
    assert_eq!(
        load_image_incremental_static(&file),
        Err(PixelError::DecodeFailed)
    );
    assert_eq!(
        load_image_incremental_dynamic(&file),
        Err(PixelError::DecodeFailed)
    );
}

#[test]
fn truncated_stream_fails() {
    let mut file = rgb_2x2();
    file.truncate(file.len() / 2);
    assert!(load_image_buffer(&file).is_err());
    assert!(load_image_incremental_static(&file).is_err());
    assert!(load_image_incremental_dynamic(&file).is_err());
}

#[test]
fn single_pixel_image() {
    let data: [u8; 3] = [200, 100, 50];
    let file = encode_png(&data, 1, 1, ColorType::Rgb8);
    let buffered = load_image_buffer(&file).unwrap();
    let fixed = load_image_incremental_static(&file).unwrap();
    let dynamic = load_image_incremental_dynamic(&file).unwrap();
    assert_eq!((buffered.red, buffered.green, buffered.blue), (200, 100, 50));
    assert_eq!(buffered, fixed);
    assert_eq!(fixed, dynamic);
}
