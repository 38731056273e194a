//! What comes back from OBS: the screenshot arrives as a data URL whose
//! base64 payload holds the image file.
use base64::Engine;
use vstd::prelude::*;
use vstd::string::*;
use vstd::utf8::encode_utf8;
use crate::text::{find, find_from, lemma_find_from_found, push_char, push_decimal, decimal};

verus! {

/// The bytes that the standard base64 alphabet with padding decodes `input`
/// to, or `None` when `input` is not such an encoding.
pub uninterp spec fn base64_standard_decoding(input: Seq<u8>) -> Option<Seq<u8>>;

/// `base64::engine::general_purpose::STANDARD.decode` (the `Engine::decode`
/// method): the contract names the decoded bytes and claims nothing more.
#[verifier::external_body]
fn decode_base64(input: &[u8]) -> (r: Option<Vec<u8>>)
    ensures
        match r {
            Some(bytes) => base64_standard_decoding(input@) == Some(bytes@),
            None => base64_standard_decoding(input@) is None,
        },
{
    base64::engine::general_purpose::STANDARD.decode(input).ok()
}

/// What follows the first "base64," in a data URL, as `split_once` finds it.
pub open spec fn payload_of(data_url: Seq<char>) -> Option<Seq<char>> {
    match find_from(data_url, "base64,"@, 0) {
        Some(k) => Some(data_url.skip(k + 7)),
        None => None,
    }
}

/// The base64 payload of a screenshot's data URL.
pub fn screenshot_payload(data_url: &str) -> (r: Option<&str>)
    ensures
        match r {
            Some(p) => payload_of(data_url@) == Some(p@),
            None => payload_of(data_url@) is None,
        },
{
    let marker = "base64,";
    proof {
        reveal_strlit("base64,");
    }
    match find(data_url, marker, 0) {
        Some(k) => {
            proof {
                lemma_find_from_found(data_url@, marker@, 0);
            }
            let n = data_url.unicode_len();
            let p = data_url.substring_char(k + 7, n);
            assert(p@ =~= data_url@.skip(k + 7));
            Some(p)
        },
        None => None,
    }
}

/// The image file carried by a screenshot's data URL: the decoded payload,
/// or `None` when there is no payload or it is not valid base64.
pub fn screenshot_bytes(data_url: &str) -> (r: Option<Vec<u8>>)
    ensures
        match payload_of(data_url@) {
            None => r is None,
            Some(p) => match base64_standard_decoding(encode_utf8(p)) {
                Some(bytes) => r matches Some(v) && v@ == bytes,
                None => r is None,
            },
        },
{
    match screenshot_payload(data_url) {
        None => None,
        Some(p) => decode_base64(p.as_bytes()),
    }
}

/// A decoded frame as plain values: its size and its pixels, three bytes
/// (red, green, blue) per pixel, row by row.
pub struct RgbFrame {
    pub width: u32,
    pub height: u32,
    pub pixels: Vec<u8>,
}

/// A frame whose pixel buffer holds exactly three bytes per pixel.
pub open spec fn frame_sized(f: RgbFrame) -> bool {
    f.pixels@.len() == f.width * f.height * 3
}

/// The bytes of the `w` by `h` rectangle at column `x`, row `y` of a frame
/// `width` pixels wide, row by row: what `sub_image(..).to_image()` copies.
pub open spec fn cropped(px: Seq<u8>, width: int, x: int, y: int, w: int, h: nat) -> Seq<u8>
    decreases h,
{
    if h == 0 {
        seq![]
    } else {
        let row = y + h - 1;
        cropped(px, width, x, y, w, (h - 1) as nat) + px.subrange(
            (row * width + x) * 3,
            (row * width + x + w) * 3,
        )
    }
}

proof fn lemma_row_in_frame(width: int, height: int, x: int, w: int, row: int)
    requires
        0 <= x,
        0 <= w,
        x + w <= width,
        0 <= row < height,
    ensures
        0 <= row * width <= (row * width + x) * 3 <= (row * width + x + w) * 3 <= width * height * 3,
{
    assert(row * width + width <= height * width) by (nonlinear_arith)
        requires
            0 <= row < height,
            0 <= width,
    ;
    assert(0 <= row * width) by (nonlinear_arith)
        requires
            0 <= row,
            0 <= width,
    ;
    assert(width * height == height * width) by (nonlinear_arith);
}

/// Each pixel of a crop is the source pixel offset by the crop's corner:
/// byte `k` of pixel (column `c`, row `r`) of the `w` by `h` crop taken at
/// column `x`, row `y` is byte `k` of source pixel (`x + c`, `y + r`).
pub proof fn lemma_cropped_pixels(
    px: Seq<u8>,
    width: int,
    height: int,
    x: int,
    y: int,
    w: int,
    h: nat,
)
    requires
        0 <= width,
        0 <= height,
        px.len() == width * height * 3,
        0 <= x,
        0 <= y,
        0 <= w,
        x + w <= width,
        y + h <= height,
    ensures
        cropped(px, width, x, y, w, h).len() == h * w * 3,
        forall|r: int, c: int, k: int|
            0 <= r < h && 0 <= c < w && 0 <= k < 3 ==> #[trigger] cropped(px, width, x, y, w, h)[(r
                * w + c) * 3 + k] == px[((y + r) * width + x + c) * 3 + k],
    decreases h,
{
    if h > 0 {
        let hp = (h - 1) as nat;
        lemma_cropped_pixels(px, width, height, x, y, w, hp);
        let row = y + h - 1;
        lemma_row_in_frame(width, height, x, w, row);
        let prev = cropped(px, width, x, y, w, hp);
        let slice = px.subrange((row * width + x) * 3, (row * width + x + w) * 3);
        let all = cropped(px, width, x, y, w, h);
        assert(all == prev + slice);
        assert(slice.len() == w * 3);
        assert(hp * w * 3 + w * 3 == h * w * 3) by (nonlinear_arith)
            requires
                hp + 1 == h,
        ;
        assert forall|r: int, c: int, k: int|
            0 <= r < h && 0 <= c < w && 0 <= k < 3 implies #[trigger] all[(r * w + c) * 3 + k]
            == px[((y + r) * width + x + c) * 3 + k] by {
            let idx = (r * w + c) * 3 + k;
            if r < hp {
                assert(idx < hp * w * 3) by (nonlinear_arith)
                    requires
                        0 <= r < hp,
                        0 <= c < w,
                        0 <= k < 3,
                        idx == (r * w + c) * 3 + k,
                ;
                assert(0 <= idx) by (nonlinear_arith)
                    requires
                        0 <= r,
                        0 <= c,
                        0 <= w,
                        0 <= k,
                        idx == (r * w + c) * 3 + k,
                ;
                assert(all[idx] == prev[idx]);
                assert(prev[(r * w + c) * 3 + k] == px[((y + r) * width + x + c) * 3 + k]);
            } else {
                assert(idx - hp * w * 3 == c * 3 + k) by (nonlinear_arith)
                    requires
                        r == hp,
                        idx == (r * w + c) * 3 + k,
                ;
                assert(all[idx] == slice[c * 3 + k]);
                assert((row * width + x) * 3 + c * 3 + k == ((y + r) * width + x + c) * 3 + k)
                    by (nonlinear_arith)
                    requires
                        row == y + r,
                ;
            }
        }
    }
}

/// The `w` by `h` rectangle of `frame` at column `x`, row `y`, as
/// `GenericImage::sub_image` followed by `to_image` gives it.
pub fn crop(frame: &RgbFrame, x: u32, y: u32, w: u32, h: u32) -> (r: RgbFrame)
    requires
        frame_sized(*frame),
        x + w <= frame.width,
        y + h <= frame.height,
    ensures
        r.width == w,
        r.height == h,
        r.pixels@ == cropped(frame.pixels@, frame.width as int, x as int, y as int, w as int, h as nat),
        frame_sized(r),
        forall|row: int, col: int, k: int|
            0 <= row < h && 0 <= col < w && 0 <= k < 3 ==> #[trigger] r.pixels@[(row * w + col) * 3
                + k] == frame.pixels@[((y + row) * frame.width + x + col) * 3 + k],
{
    proof {
        lemma_cropped_pixels(
            frame.pixels@,
            frame.width as int,
            frame.height as int,
            x as int,
            y as int,
            w as int,
            h as nat,
        );
    }
    let ghost px = frame.pixels@;
    let width = frame.width;
    let n = frame.pixels.len();
    let mut out: Vec<u8> = Vec::new();
    let mut r: u32 = 0;
    while r < h
        invariant
            px == frame.pixels@,
            n == px.len(),
            width == frame.width,
            frame_sized(*frame),
            x + w <= frame.width,
            y + h <= frame.height,
            r <= h,
            out@ == cropped(px, width as int, x as int, y as int, w as int, r as nat),
            out@.len() == (r as int) * (w as int) * 3,
        decreases h - r,
    {
        let row: u32 = y + r;
        proof {
            lemma_row_in_frame(width as int, frame.height as int, x as int, w as int, row as int);
        }
        let start: usize = ((row as u64 * width as u64 + x as u64) * 3) as usize;
        let end: usize = ((row as u64 * width as u64 + x as u64 + w as u64) * 3) as usize;
        let ghost before = out@;
        let mut k: usize = start;
        while k < end
            invariant
                px == frame.pixels@,
                start <= k <= end,
                end <= px.len(),
                out@ == before + px.subrange(start as int, k as int),
            decreases end - k,
        {
            out.push(frame.pixels[k]);
            assert(px.subrange(start as int, k + 1) =~= px.subrange(start as int, k as int).push(px[k as int]));
            k = k + 1;
        }
        assert(end - start == (w as int) * 3);
        assert((r as int + 1) * (w as int) * 3 == (r as int) * (w as int) * 3 + (w as int) * 3) by (nonlinear_arith);
        r = r + 1;
    }
    assert((h as int) * (w as int) * 3 == (w as int) * (h as int) * 3) by (nonlinear_arith);
    RgbFrame { width: w, height: h, pixels: out }
}

/// The JPEG file that the `image` crate's encoder writes for a frame, or
/// `None` when it refuses the frame.
pub uninterp spec fn jpeg_encoding(width: u32, height: u32, pixels: Seq<u8>) -> Option<Seq<u8>>;

/// `ImageBuffer::from_raw` and `ImageBuffer::write_to` with
/// `ImageFormat::Jpeg` into memory: the contract names the file and claims
/// nothing more of it.
#[verifier::external_body]
fn encode_jpeg(frame: &RgbFrame) -> (r: Option<Vec<u8>>)
    requires
        frame_sized(*frame),
    ensures
        match r {
            Some(bytes) => jpeg_encoding(frame.width, frame.height, frame.pixels@) == Some(bytes@),
            None => jpeg_encoding(frame.width, frame.height, frame.pixels@) is None,
        },
{
    let buffer = image::RgbImage::from_raw(frame.width, frame.height, frame.pixels.clone())?;
    let mut bytes: Vec<u8> = Vec::new();
    match buffer.write_to(&mut std::io::Cursor::new(&mut bytes), image::ImageFormat::Jpeg) {
        Ok(()) => Some(bytes),
        Err(_) => None,
    }
}

/// A frame as a JPEG file, as sent to the model; `None` when the encoder
/// refuses it.
pub fn jpeg_bytes(frame: &RgbFrame) -> (r: Option<Vec<u8>>)
    requires
        frame_sized(*frame),
    ensures
        match r {
            Some(bytes) => jpeg_encoding(frame.width, frame.height, frame.pixels@) == Some(bytes@),
            None => jpeg_encoding(frame.width, frame.height, frame.pixels@) is None,
        },
{
    encode_jpeg(frame)
}

/// The size and RGB pixels that `image::load_from_memory` followed by
/// `into_rgb8` gives for an image file's bytes, or `None` when the bytes are
/// not an image it can read.
pub uninterp spec fn rgb8_decoding(bytes: Seq<u8>) -> Option<(u32, u32, Seq<u8>)>;

/// `image::load_from_memory` and `DynamicImage::into_rgb8`: the contract
/// names the decoded frame and claims nothing more of it.
#[verifier::external_body]
fn decode_rgb8(bytes: &[u8]) -> (r: Option<RgbFrame>)
    ensures
        match r {
            Some(f) => rgb8_decoding(bytes@) == Some((f.width, f.height, f.pixels@)),
            None => rgb8_decoding(bytes@) is None,
        },
{
    match image::load_from_memory(bytes) {
        Ok(decoded) => {
            let rgb = decoded.into_rgb8();
            Some(RgbFrame { width: rgb.width(), height: rgb.height(), pixels: rgb.into_raw() })
        },
        Err(_) => None,
    }
}

/// The frame that an image file's bytes hold, the format read from the
/// bytes themselves; `None` when they are not an image the decoder reads.
pub fn image_frame(bytes: &[u8]) -> (r: Option<RgbFrame>)
    ensures
        match r {
            Some(f) => rgb8_decoding(bytes@) == Some((f.width, f.height, f.pixels@)),
            None => rgb8_decoding(bytes@) is None,
        },
{
    decode_rgb8(bytes)
}

/// The step at which reading a screenshot's data URL failed.
#[derive(Clone, Copy, Debug, PartialEq, Eq, Structural)]
pub enum ScreenshotError {
    /// There is no "base64," in the data URL.
    NoPayload,
    /// The payload is not valid base64.
    NotBase64,
    /// The decoded bytes are not an image.
    NotImage,
}

/// The frame carried by a screenshot's data URL: the decoded base64 payload
/// read as an image, or the step that failed.
pub fn screenshot_frame(data_url: &str) -> (r: Result<RgbFrame, ScreenshotError>)
    ensures
        match payload_of(data_url@) {
            None => r matches Err(ScreenshotError::NoPayload),
            Some(p) => match base64_standard_decoding(encode_utf8(p)) {
                None => r matches Err(ScreenshotError::NotBase64),
                Some(bytes) => match rgb8_decoding(bytes) {
                    Some((w, h, px)) => r matches Ok(f) && f.width == w && f.height == h
                        && f.pixels@ == px,
                    None => r matches Err(ScreenshotError::NotImage),
                },
            },
        },
{
    match screenshot_payload(data_url) {
        None => Err(ScreenshotError::NoPayload),
        Some(p) => match decode_base64(p.as_bytes()) {
            None => Err(ScreenshotError::NotBase64),
            Some(bytes) => match decode_rgb8(bytes.as_slice()) {
                Some(f) => Ok(f),
                None => Err(ScreenshotError::NotImage),
            },
        },
    }
}

/// One line of the list of sources offered to choose from: `  i: "name"`.
pub fn source_line(index: usize, name: &str) -> (r: String)
    ensures
        r@ == "  "@ + decimal(index as nat) + ": \""@ + name@ + "\""@,
{
    let mut r = String::from_str("  ");
    push_decimal(&mut r, index as u64);
    r.append(": \"");
    r.append(name);
    r.append("\"");
    r
}

} // verus!
