use image::{DynamicImage, ImageFormat, Rgba, RgbaImage};
use mttp::lab2::tasks::video::{
    decode_stage, default_watermark, encode_stage, filter_stage, process_frame, watermark_stage, Frame,
    FrameError,
};
use std::io::Cursor;

fn png_of(image: &RgbaImage) -> Vec<u8> {
    let mut out = Cursor::new(Vec::new());
    image.write_to(&mut out, ImageFormat::Png).unwrap();
    out.into_inner()
}

fn sample_image() -> RgbaImage {
    RgbaImage::from_fn(24, 16, |x, y| Rgba([(x * 10) as u8, (y * 15) as u8, 200, 255]))
}

#[test]
fn filled_frame_repeats_its_pixel() {
    let frame = Frame::filled(3, 2, [1, 2, 3, 4]);
    assert_eq!((frame.width, frame.height), (3, 2));
    assert_eq!(frame.rgba.len(), 24);
    assert_eq!(&frame.rgba[..8], &[1, 2, 3, 4, 1, 2, 3, 4]);
    assert!(frame.is_wf());
    let broken = Frame { width: 2, height: 2, rgba: vec![0; 15] };
    assert!(!broken.is_wf());
}

#[test]
fn watermark_is_a_red_square() {
    let mark = default_watermark();
    assert_eq!((mark.width, mark.height), (100, 100));
    assert_eq!(&mark.rgba[..4], &[255, 0, 0, 128]);
    assert_eq!(mark.rgba.len(), 40000);
}

#[test]
fn frame_is_greyed_watermarked_and_encoded() {
    let source = sample_image();
    let bytes = png_of(&source);
    let watermark = default_watermark();
    let out = process_frame(&bytes, &watermark).unwrap();

    let mut expected = DynamicImage::ImageRgba8(source).grayscale().to_rgba8();
    let mark = RgbaImage::from_raw(100, 100, watermark.rgba.clone()).unwrap();
    image::imageops::overlay(&mut expected, &mark, 10, 10);
    assert_eq!(out, png_of(&expected));

    let decoded = image::load_from_memory(&out).unwrap().to_rgba8();
    assert_eq!(decoded.dimensions(), (24, 16));
    let p = decoded.get_pixel(0, 0);
    assert_eq!(p[0], p[1]);
    assert_eq!(p[1], p[2]);
}

#[test]
fn stages_one_by_one_give_the_same_file() {
    let bytes = png_of(&sample_image());
    let watermark = default_watermark();
    let frame = decode_stage(&bytes).unwrap();
    assert_eq!((frame.width, frame.height), (24, 16));
    let grey = filter_stage(&frame);
    let marked = watermark_stage(&grey, &watermark);
    assert_eq!((marked.width, marked.height), (24, 16));
    assert_eq!(encode_stage(&marked).unwrap(), process_frame(&bytes, &watermark).unwrap());
}

#[test]
fn bytes_that_are_no_image_fail_to_decode() {
    let watermark = default_watermark();
    assert!(matches!(decode_stage(b"not an image"), Err(FrameError::Decode(_))));
    assert!(matches!(process_frame(b"not an image", &watermark), Err(FrameError::Decode(_))));
}
