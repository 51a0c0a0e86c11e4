use image::{DynamicImage, ImageError, ImageFormat, RgbaImage};
use vstd::prelude::*;

verus! {

/// `image::ImageError`, the error of decoding or encoding an image.
#[verifier::external_type_specification]
#[verifier::external_body]
pub struct ExImageError(image::ImageError);

/// A frame of the video: `width` by `height` pixels, four bytes (red, green, blue, alpha) each,
/// row by row.
pub struct Frame {
    pub width: u32,
    pub height: u32,
    pub rgba: Vec<u8>,
}

impl Frame {
    /// The bytes hold exactly the pixels of the frame.
    pub open spec fn wf(&self) -> bool {
        self.rgba@.len() == 4 * self.width * self.height
    }

    /// Whether the bytes hold exactly the pixels of the frame.
    pub fn is_wf(&self) -> (r: bool)
        ensures
            r == self.wf(),
    {
        let w = self.width as u64;
        let h = self.height as u64;
        assert(w * h <= 0xffff_ffff * 0xffff_ffff) by (nonlinear_arith)
            requires
                w <= 0xffff_ffff,
                h <= 0xffff_ffff,
        ;
        let pixels = w * h;
        if pixels > (usize::MAX / 4) as u64 {
            assert(4 * self.width * self.height > usize::MAX) by (nonlinear_arith)
                requires
                    pixels == self.width * self.height,
                    pixels > usize::MAX / 4,
            ;
            let bytes = self.rgba.len();
            assert(bytes == self.rgba@.len());
            return false;
        }
        assert(pixels * 4 == 4 * self.width * self.height) by (nonlinear_arith)
            requires
                pixels == self.width * self.height,
        ;
        self.rgba.len() == (pixels as usize) * 4
    }

    /// A `width` by `height` frame whose pixels are all `pixel`.
    pub fn filled(width: u32, height: u32, pixel: [u8; 4]) -> (r: Frame)
        requires
            4 * width * height <= usize::MAX,
        ensures
            r.width == width,
            r.height == height,
            r.wf(),
            forall|i: int| 0 <= i < r.rgba@.len() ==> #[trigger] r.rgba@[i] == pixel@[i % 4],
    {
        assert(width * height <= 4 * width * height && width * height * 4 == 4 * width * height)
            by (nonlinear_arith);
        let len = (width as usize) * (height as usize) * 4;
        let mut rgba: Vec<u8> = Vec::with_capacity(len);
        let mut i: usize = 0;
        while i < len
            invariant
                len == 4 * width * height,
                i <= len,
                rgba@.len() == i,
                forall|j: int| 0 <= j < i ==> #[trigger] rgba@[j] == pixel@[j % 4],
            decreases len - i,
        {
            rgba.push(pixel[i % 4]);
            i = i + 1;
        }
        Frame { width, height, rgba }
    }
}

/// Why a frame could not be processed: its bytes do not decode as an image, or the processed
/// frame does not encode as PNG.
#[derive(Debug)]
pub enum FrameError {
    Decode(ImageError),
    Encode(ImageError),
}

/// The width, height and RGBA pixels that decoding `bytes` gives, or none when they are not an
/// image.
pub uninterp spec fn decoded_rgba(bytes: Seq<u8>) -> Option<(u32, u32, Seq<u8>)>;

/// The RGBA pixels of the grey version of a `width` by `height` RGBA image.
pub uninterp spec fn grayscaled_rgba(width: u32, height: u32, pixels: Seq<u8>) -> Seq<u8>;

/// The RGBA pixels of a `width` by `height` image with a `top_width` by `top_height` image laid
/// over it, its top left corner at column `x`, row `y`.
pub uninterp spec fn overlaid_rgba(
    width: u32,
    height: u32,
    pixels: Seq<u8>,
    top_width: u32,
    top_height: u32,
    top_pixels: Seq<u8>,
    x: i64,
    y: i64,
) -> Seq<u8>;

/// The PNG file of a `width` by `height` RGBA image, or none when it cannot be encoded.
pub uninterp spec fn encoded_png(width: u32, height: u32, pixels: Seq<u8>) -> Option<Seq<u8>>;

/// `image::load_from_memory`, then `DynamicImage::to_rgba8` and `ImageBuffer::into_raw`: the
/// decoded image as RGBA pixels. Decoding depends on the bytes alone; the contract names its
/// result and states that the pixels of an RGBA buffer fill it exactly.
#[verifier::external_body]
fn decode_rgba(bytes: &[u8]) -> (r: Result<Frame, ImageError>)
    ensures
        r is Ok <==> decoded_rgba(bytes@) is Some,
        r matches Ok(f) ==> f.wf() && decoded_rgba(bytes@) == Some((f.width, f.height, f.rgba@)),
{
    let image = image::load_from_memory(bytes)?.to_rgba8();
    Ok(Frame { width: image.width(), height: image.height(), rgba: image.into_raw() })
}

/// `DynamicImage::grayscale` of the frame (an RGBA image becomes a grey image with alpha),
/// brought back to RGBA pixels with `to_rgba8`. The size stays; the pixels are named.
#[verifier::external_body]
fn grayscale(frame: &Frame) -> (r: Frame)
    requires
        frame.wf(),
    ensures
        r.width == frame.width,
        r.height == frame.height,
        r.wf(),
        r.rgba@ == grayscaled_rgba(frame.width, frame.height, frame.rgba@),
{
    let buffer = RgbaImage::from_raw(frame.width, frame.height, frame.rgba.clone()).unwrap();
    let grey = DynamicImage::ImageRgba8(buffer).grayscale().to_rgba8();
    Frame { width: grey.width(), height: grey.height(), rgba: grey.into_raw() }
}

/// `image::imageops::overlay` of `top` on `base` at column `x`, row `y` (the part of `top`
/// outside `base` is cut off). The size of `base` stays; the pixels are named.
#[verifier::external_body]
fn overlay(base: &Frame, top: &Frame, x: i64, y: i64) -> (r: Frame)
    requires
        base.wf(),
        top.wf(),
    ensures
        r.width == base.width,
        r.height == base.height,
        r.wf(),
        r.rgba@ == overlaid_rgba(
            base.width,
            base.height,
            base.rgba@,
            top.width,
            top.height,
            top.rgba@,
            x,
            y,
        ),
{
    let mut bottom = RgbaImage::from_raw(base.width, base.height, base.rgba.clone()).unwrap();
    let upper = RgbaImage::from_raw(top.width, top.height, top.rgba.clone()).unwrap();
    image::imageops::overlay(&mut bottom, &upper, x, y);
    Frame { width: base.width, height: base.height, rgba: bottom.into_raw() }
}

/// `ImageBuffer::write_to` with `ImageFormat::Png`, into memory: the PNG file of the frame. The
/// encoding depends on the frame alone; its result is named.
#[verifier::external_body]
fn encode_png(frame: &Frame) -> (r: Result<Vec<u8>, ImageError>)
    requires
        frame.wf(),
    ensures
        r is Ok <==> encoded_png(frame.width, frame.height, frame.rgba@) is Some,
        r matches Ok(bytes) ==> encoded_png(frame.width, frame.height, frame.rgba@) == Some(
            bytes@,
        ),
{
    let buffer = RgbaImage::from_raw(frame.width, frame.height, frame.rgba.clone()).unwrap();
    let mut out = std::io::Cursor::new(Vec::new());
    buffer.write_to(&mut out, ImageFormat::Png)?;
    Ok(out.into_inner())
}

/// The watermark: a 100 by 100 square of half-transparent red.
pub fn default_watermark() -> (r: Frame)
    ensures
        r.width == 100,
        r.height == 100,
        r.wf(),
        forall|i: int| 0 <= i < r.rgba@.len() ==> #[trigger] r.rgba@[i] == seq![255u8, 0u8, 0u8, 128u8][i % 4],
{
    let r = Frame::filled(100, 100, [255, 0, 0, 128]);
    assert(r.rgba@.len() == 40000);
    r
}

/// Stage one: the frame that the bytes of an image file decode to.
pub fn decode_stage(bytes: &[u8]) -> (r: Result<Frame, FrameError>)
    ensures
        r is Ok <==> decoded_rgba(bytes@) is Some,
        r matches Ok(f) ==> f.wf() && decoded_rgba(bytes@) == Some((f.width, f.height, f.rgba@)),
        r matches Err(e) ==> e is Decode,
{
    match decode_rgba(bytes) {
        Ok(frame) => Ok(frame),
        Err(e) => Err(FrameError::Decode(e)),
    }
}

/// Stage two: the grey version of the frame.
pub fn filter_stage(frame: &Frame) -> (r: Frame)
    requires
        frame.wf(),
    ensures
        r.width == frame.width,
        r.height == frame.height,
        r.wf(),
        r.rgba@ == grayscaled_rgba(frame.width, frame.height, frame.rgba@),
{
    grayscale(frame)
}

/// Stage three: the frame with the watermark laid over it, ten pixels from its top left corner.
pub fn watermark_stage(frame: &Frame, watermark: &Frame) -> (r: Frame)
    requires
        frame.wf(),
        watermark.wf(),
    ensures
        r.width == frame.width,
        r.height == frame.height,
        r.wf(),
        r.rgba@ == overlaid_rgba(
            frame.width,
            frame.height,
            frame.rgba@,
            watermark.width,
            watermark.height,
            watermark.rgba@,
            10,
            10,
        ),
{
    overlay(frame, watermark, 10, 10)
}

/// Stage four: the PNG file of the frame.
pub fn encode_stage(frame: &Frame) -> (r: Result<Vec<u8>, FrameError>)
    requires
        frame.wf(),
    ensures
        r is Ok <==> encoded_png(frame.width, frame.height, frame.rgba@) is Some,
        r matches Ok(bytes) ==> encoded_png(frame.width, frame.height, frame.rgba@) == Some(
            bytes@,
        ),
        r matches Err(e) ==> e is Encode,
{
    match encode_png(frame) {
        Ok(bytes) => Ok(bytes),
        Err(e) => Err(FrameError::Encode(e)),
    }
}

/// What processing an image file gives, as a spec: decoded, turned grey, watermarked at
/// (10, 10) and encoded as PNG; none when it does not decode or the result does not encode.
pub open spec fn processed_png(bytes: Seq<u8>, watermark: Frame) -> Option<Seq<u8>> {
    match decoded_rgba(bytes) {
        Some((w, h, px)) => encoded_png(
            w,
            h,
            overlaid_rgba(
                w,
                h,
                grayscaled_rgba(w, h, px),
                watermark.width,
                watermark.height,
                watermark.rgba@,
                10,
                10,
            ),
        ),
        None => None,
    }
}

/// The four stages on one image file: the bytes of the processed PNG file. A file that does not
/// decode is a decoding error; a frame that does not encode is an encoding error.
pub fn process_frame(bytes: &[u8], watermark: &Frame) -> (r: Result<Vec<u8>, FrameError>)
    requires
        watermark.wf(),
    ensures
        r is Ok <==> processed_png(bytes@, *watermark) is Some,
        r matches Ok(out) ==> processed_png(bytes@, *watermark) == Some(out@),
        decoded_rgba(bytes@) is None ==> (r matches Err(e) && e is Decode),
        decoded_rgba(bytes@) is Some && r is Err ==> (r matches Err(e) && e is Encode),
{
    let decoded = decode_stage(bytes)?;
    let grey = filter_stage(&decoded);
    let marked = watermark_stage(&grey, watermark);
    encode_stage(&marked)
}

} // verus!
