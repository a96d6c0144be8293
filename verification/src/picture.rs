//! Pictures: shrinking them and encoding them as PNG or JPEG.

use crate::binary64::{scaled_side, scaled_side_is_nearest, scaled_side_spec, scaled_to_nothing};
use crate::encoding::{base64_decode, base64_decoded, base64_text, bytes_view};
use crate::text::{decimal, decimal_spec, same_text};
use vstd::prelude::*;

verus! {

/// The longest side that pictures are shrunk to.
pub const LONGEST_OUTPUT_SIDE: u32 = 0xffff;

/// The quality of JPEG pictures, in percent.
pub const JPEG_QUALITY: u8 = 85;

/// The number of bytes of a picture with four bytes to a pixel.
pub open spec fn byte_count(width: u32, height: u32) -> nat {
    (4 * (width * height)) as nat
}

/// Whether so many bytes hold a picture of this size: all pixels are there, and a row is no longer
/// than memory can be, even where there is no row.
pub open spec fn holds(length: nat, width: u32, height: u32) -> bool {
    &&& byte_count(width, height) <= length
    &&& 4 * width <= usize::MAX
}

/// A picture: its pixels row by row, with red, green, blue and alpha bytes. There may be bytes
/// behind the last pixel.
#[derive(Debug)]
pub struct RgbaImage {
    pub width: u32,
    pub height: u32,
    pub pixels: Vec<u8>,
}

impl RgbaImage {
    /// Whether the bytes hold the picture.
    pub open spec fn wf(self) -> bool {
        holds(self.pixels@.len(), self.width, self.height)
    }

    /// A picture of these pixels, where they hold one of this size.
    pub fn from_raw(width: u32, height: u32, pixels: Vec<u8>) -> (picture: Option<RgbaImage>)
        ensures
            match picture {
                Some(picture) => picture == (RgbaImage { width, height, pixels }) && picture.wf(),
                None => !holds(pixels@.len(), width, height),
            },
    {
        if holds_picture(pixels.len(), width, height) {
            Some(RgbaImage { width, height, pixels })
        } else {
            None
        }
    }
}

fn needed_bytes(width: u32, height: u32) -> (bytes: u128)
    ensures
        bytes == byte_count(width, height),
        bytes <= 4 * 0xffff_ffff * 0xffff_ffff,
{
    proof {
        assert(width * height <= 0xffff_ffff * 0xffff_ffff) by (nonlinear_arith)
            requires
                width <= 0xffff_ffff,
                height <= 0xffff_ffff,
        ;
    }
    4 * (width as u128 * height as u128)
}

/// Whether so many bytes hold a picture of this size.
fn holds_picture(length: usize, width: u32, height: u32) -> (yes: bool)
    ensures
        yes == holds(length as nat, width, height),
{
    needed_bytes(width, height) <= length as u128 && 4 * (width as u128) <= usize::MAX as u128
}

/// A picture shrunk by `image::imageops::resize` with its triangle filter: the pixels of the new
/// picture.
pub uninterp spec fn resized(
    pixels: Seq<u8>,
    width: u32,
    height: u32,
    new_width: u32,
    new_height: u32,
) -> Seq<u8>;

/// `image::imageops::resize` with `FilterType::Triangle`: the new picture has the size asked for and
/// exactly its pixels, which depend on the old picture and on the two sizes. Between its two passes
/// the function holds a picture of the old width and the new height with sixteen bytes to a pixel,
/// which has to fit into memory; sides far beyond 65535 would exceed the precision it computes with.
#[verifier::external_body]
fn resize(picture: RgbaImage, new_width: u32, new_height: u32) -> (smaller: RgbaImage)
    requires
        picture.wf(),
        1 <= new_width <= LONGEST_OUTPUT_SIDE,
        1 <= new_height <= LONGEST_OUTPUT_SIDE,
        picture.width > 0 && picture.height > 0 ==> new_width <= picture.width && new_height
            <= picture.height,
        16 * (picture.width * new_height) <= isize::MAX,
        16 * (new_width * new_height) <= isize::MAX,
    ensures
        smaller.width == new_width,
        smaller.height == new_height,
        smaller.pixels@ == resized(
            picture.pixels@,
            picture.width,
            picture.height,
            new_width,
            new_height,
        ),
        smaller.pixels@.len() == byte_count(new_width, new_height),
{
    let source = image::RgbaImage::from_raw(picture.width, picture.height, picture.pixels).unwrap();
    let filter = image::imageops::FilterType::Triangle;
    let smaller = image::imageops::resize(&source, new_width, new_height, filter);
    RgbaImage { width: smaller.width(), height: smaller.height(), pixels: smaller.into_raw() }
}

/// The red, green and blue bytes of a picture's pixels.
pub open spec fn without_alpha(pixels: Seq<u8>, width: u32, height: u32) -> Seq<u8> {
    Seq::new((3 * (width * height)) as nat, |at: int| pixels[4 * (at / 3) + at % 3])
}

/// `image::DynamicImage::to_rgb8` of an RGBA picture: every pixel loses its alpha byte, and bytes
/// behind the last pixel are left out. `image::ImageBuffer::from_raw`, which takes the picture, counts
/// the bytes of a row in `usize` before it counts the rows, here and for the files below.
#[verifier::external_body]
fn to_rgb8(picture: RgbaImage) -> (rgb: Vec<u8>)
    requires
        picture.wf(),
    ensures
        rgb@ == without_alpha(picture.pixels@, picture.width, picture.height),
{
    let source = image::RgbaImage::from_raw(picture.width, picture.height, picture.pixels).unwrap();
    image::DynamicImage::ImageRgba8(source).to_rgb8().into_raw()
}

/// A JPEG file of a picture with three bytes to a pixel, or the reason why there is none.
pub uninterp spec fn jpeg_encoded(rgb: Seq<u8>, width: u32, height: u32, quality: u8) -> Result<
    Seq<u8>,
    Seq<char>,
>;

/// Whether a file stands between the markers that start and end a JPEG picture.
pub open spec fn is_jpeg(file: Seq<u8>) -> bool {
    &&& file.len() >= 4
    &&& file[0] == 0xff && file[1] == 0xd8
    &&& file[file.len() - 2] == 0xff && file[file.len() - 1] == 0xd9
}

/// `image::codecs::jpeg::JpegEncoder::new_with_quality` and `encode_image`: the file, which depends
/// on the picture and the quality alone. The encoder refuses a picture without pixels and one with a
/// side beyond 65535, and no other. It writes JPEG's start marker first and its end marker last.
#[verifier::external_body]
fn jpeg_encode(rgb: Vec<u8>, width: u32, height: u32, quality: u8) -> (file: Result<Vec<u8>, String>)
    requires
        rgb@.len() == 3 * (width * height),
        3 * width <= usize::MAX,
    ensures
        bytes_view(file) == jpeg_encoded(rgb@, width, height, quality),
        (file is Ok) == (1 <= width <= 0xffff && 1 <= height <= 0xffff),
        file matches Ok(bytes) ==> is_jpeg(bytes@),
{
    let source = image::RgbImage::from_raw(width, height, rgb).unwrap();
    let mut file: Vec<u8> = Vec::new();
    let mut encoder = image::codecs::jpeg::JpegEncoder::new_with_quality(&mut file, quality);
    match encoder.encode_image(&source) {
        Ok(()) => Ok(file),
        Err(e) => Err(e.to_string()),
    }
}

/// A PNG file of a picture with four bytes to a pixel, or the reason why there is none.
pub uninterp spec fn png_encoded(pixels: Seq<u8>, width: u32, height: u32) -> Result<Seq<u8>, Seq<char>>;

/// What `image::DynamicImage::from_decoder` reads from a file with `image::codecs::png::PngDecoder`:
/// the pixels of an RGBA picture, its width and its height, where the file holds one.
pub uninterp spec fn png_decoded(file: Seq<u8>) -> Option<(Seq<u8>, u32, u32)>;

/// `image::DynamicImage::write_to` with `ImageFormat::Png`: the file, which depends on the picture
/// alone. The encoder refuses a picture without pixels, and no other; it does not take bytes behind
/// the last pixel. PNG loses nothing: the decoder of the same crate reads the picture back from the
/// file, pixel for pixel with its alpha.
#[verifier::external_body]
fn png_encode(picture: RgbaImage) -> (file: Result<Vec<u8>, String>)
    requires
        picture.wf(),
        picture.pixels@.len() == byte_count(picture.width, picture.height),
    ensures
        bytes_view(file) == png_encoded(
            picture.pixels@,
            picture.width,
            picture.height,
        ),
        (file is Ok) == (picture.width > 0 && picture.height > 0),
        file matches Ok(bytes) ==> png_decoded(bytes@) == Some(
            (picture.pixels@, picture.width, picture.height),
        ),
{
    let source = image::RgbaImage::from_raw(picture.width, picture.height, picture.pixels).unwrap();
    let mut file: Vec<u8> = Vec::new();
    let mut sink = std::io::Cursor::new(&mut file);
    match image::DynamicImage::ImageRgba8(source).write_to(&mut sink, image::ImageFormat::Png) {
        Ok(()) => Ok(file),
        Err(e) => Err(e.to_string()),
    }
}

/// An encoded picture.
#[derive(Debug)]
pub struct EncodedScreenshot {
    pub bytes: Vec<u8>,
    pub mime: String,
    pub width: u32,
    pub height: u32,
}

/// An encoded picture taken by its bytes, its media type and its size.
pub struct EncodedView {
    pub bytes: Seq<u8>,
    pub mime: Seq<char>,
    pub width: u32,
    pub height: u32,
}

impl View for EncodedScreenshot {
    type V = EncodedView;

    open spec fn view(&self) -> EncodedView {
        EncodedView {
            bytes: self.bytes@,
            mime: self.mime@,
            width: self.width,
            height: self.height,
        }
    }
}

/// What an attempt to encode a picture gave.
pub open spec fn encoded_view(result: Result<EncodedScreenshot, String>) -> Result<EncodedView, Seq<char>> {
    match result {
        Ok(encoded) => Ok(encoded@),
        Err(message) => Err(message@),
    }
}

/// The longer side of a picture.
pub open spec fn longest_side(width: u32, height: u32) -> u32 {
    if width >= height {
        width
    } else {
        height
    }
}

/// The size of a picture whose longest side may measure `max`.
pub open spec fn shrunk_size(width: u32, height: u32, max: u32) -> (u32, u32) {
    let longest = longest_side(width, height);
    if longest > max {
        (
            scaled_side_spec(width as nat, longest as nat, max as nat) as u32,
            scaled_side_spec(height as nat, longest as nat, max as nat) as u32,
        )
    } else {
        (width, height)
    }
}

/// The pixels of a picture whose longest side may measure `max`.
pub open spec fn shrunk_pixels(pixels: Seq<u8>, width: u32, height: u32, max: u32) -> Seq<u8> {
    if longest_side(width, height) > max {
        let (new_width, new_height) = shrunk_size(width, height, max);
        resized(pixels, width, height, new_width, new_height)
    } else {
        pixels
    }
}

/// What becomes of an encoder's file: it gets its media type, a failure its reason.
pub open spec fn labelled(
    file: Result<Seq<u8>, Seq<char>>,
    format: Seq<char>,
    width: u32,
    height: u32,
) -> Result<EncodedView, Seq<char>> {
    if format == "jpeg"@ {
        match file {
            Ok(bytes) => Ok(EncodedView { bytes, mime: "image/jpeg"@, width, height }),
            Err(reason) => Err("JPEG encoding failed: "@ + reason),
        }
    } else {
        match file {
            Ok(bytes) => Ok(EncodedView { bytes, mime: "image/png"@, width, height }),
            Err(reason) => Err("PNG encoding failed: "@ + reason),
        }
    }
}

/// A picture that is shrunk until its longest side measures at most `max`, as a JPEG file where the
/// format is `jpeg` and as a PNG file otherwise.
pub open spec fn encode_spec(
    pixels: Seq<u8>,
    width: u32,
    height: u32,
    max: u32,
    format: Seq<char>,
) -> Result<EncodedView, Seq<char>> {
    let (new_width, new_height) = shrunk_size(width, height, max);
    let shown = shrunk_pixels(pixels, width, height, max);
    let file = if format == "jpeg"@ {
        jpeg_encoded(without_alpha(shown, new_width, new_height), new_width, new_height, JPEG_QUALITY)
    } else {
        png_encoded(shown, new_width, new_height)
    };
    labelled(file, format, new_width, new_height)
}

/// Whether a picture can be shrunk and encoded: the work fits into memory and into the precision of
/// the filter, and the PNG encoder gets no bytes behind the last pixel.
pub open spec fn encodable(
    length: nat,
    width: u32,
    height: u32,
    max: u32,
    format: Seq<char>,
) -> bool {
    let (_, new_height) = shrunk_size(width, height, max);
    &&& holds(length, width, height)
    &&& if longest_side(width, height) > max {
        max <= LONGEST_OUTPUT_SIDE && 16 * (width * new_height) <= isize::MAX
    } else {
        format == "jpeg"@ || length == byte_count(width, height)
    }
}

/// Whether encoding a picture succeeds: there are pixels left, and a JPEG file can hold them.
pub open spec fn has_output(width: u32, height: u32, max: u32, format: Seq<char>) -> bool {
    let (new_width, new_height) = shrunk_size(width, height, max);
    &&& new_width > 0 && new_height > 0
    &&& format == "jpeg"@ ==> new_width <= 0xffff && new_height <= 0xffff
}

/// Whether an encoded picture shows these pixels: a PNG file gives them back exactly, a JPEG file is
/// one.
pub open spec fn shows(encoded: EncodedView, pixels: Seq<u8>, format: Seq<char>) -> bool {
    if format == "jpeg"@ {
        encoded.mime == "image/jpeg"@ && is_jpeg(encoded.bytes)
    } else {
        encoded.mime == "image/png"@ && png_decoded(encoded.bytes) == Some(
            (pixels, encoded.width, encoded.height),
        )
    }
}

/// The longer side of a picture.
fn longer(width: u32, height: u32) -> (longest: u32)
    ensures
        longest == longest_side(width, height),
{
    if width >= height {
        width
    } else {
        height
    }
}

/// The size of a picture whose longest side may measure `max`.
pub fn output_size(width: u32, height: u32, max: u32) -> (size: (u32, u32))
    ensures
        size == shrunk_size(width, height, max),
{
    let longest: u32 = longer(width, height);
    if longest > max {
        (scaled_side(width, longest, max), scaled_side(height, longest, max))
    } else {
        (width, height)
    }
}

/// No side of the output is longer than asked for, or than before; the longest side of a picture
/// that is shrunk measures what was asked for, and no side vanishes. The other side keeps the
/// proportion as closely as whole pixels allow.
pub proof fn output_fits(width: u32, height: u32, max: u32)
    requires
        0 < max <= LONGEST_OUTPUT_SIDE,
    ensures
        ({
            let (new_width, new_height) = shrunk_size(width, height, max);
            let longest = longest_side(width, height);
            &&& longest_side(new_width, new_height) <= max
            &&& longest <= max ==> (new_width, new_height) == (width, height)
            &&& longest > max ==> {
                &&& longest_side(new_width, new_height) == max
                &&& 1 <= new_width && 1 <= new_height
                &&& width > 0 ==> new_width <= width
                &&& height > 0 ==> new_height <= height
                &&& new_width == 1 || 2 * (new_width * longest) <= 2 * (width * max) + longest
                &&& 2 * (width * max) <= 2 * (new_width * longest) + longest
                &&& new_height == 1 || 2 * (new_height * longest) <= 2 * (height * max) + longest
                &&& 2 * (height * max) <= 2 * (new_height * longest) + longest
            }
        }),
{
    let longest = longest_side(width, height);
    if longest > max {
        scaled_side_is_nearest(width as nat, longest as nat, max as nat);
        scaled_side_is_nearest(height as nat, longest as nat, max as nat);
    }
}

/// Whether a picture can be shrunk and encoded.
pub fn is_encodable(length: usize, width: u32, height: u32, max: u32, format: &str) -> (yes: bool)
    ensures
        yes == encodable(length as nat, width, height, max, format@),
{
    if !holds_picture(length, width, height) {
        return false;
    }
    if longer(width, height) > max {
        let (_, new_height) = output_size(width, height, max);
        max <= LONGEST_OUTPUT_SIDE && 4 * needed_bytes(width, new_height) <= isize::MAX as u128
    } else {
        same_text(format, "jpeg") || needed_bytes(width, height) == length as u128
    }
}

/// Gives an encoder's file its media type, and a failure its reason.
pub fn label_file(file: Result<Vec<u8>, String>, format: &str, width: u32, height: u32) -> (result: Result<
    EncodedScreenshot,
    String,
>)
    ensures
        encoded_view(result) == labelled(bytes_view(file), format@, width, height),
{
    let jpeg = same_text(format, "jpeg");
    match file {
        Ok(bytes) => {
            let mime = if jpeg {
                "image/jpeg"
            } else {
                "image/png"
            };
            Ok(EncodedScreenshot { bytes, mime: mime.to_owned(), width, height })
        },
        Err(reason) => {
            let mut message = if jpeg {
                "JPEG encoding failed: ".to_owned()
            } else {
                "PNG encoding failed: ".to_owned()
            };
            message.append(reason.as_str());
            Err(message)
        },
    }
}

/// Shrinks a picture until its longest side measures at most `max`, and encodes it.
pub fn encode_rgba(picture: RgbaImage, max: u32, format: &str) -> (result: Result<EncodedScreenshot, String>)
    requires
        encodable(picture.pixels@.len(), picture.width, picture.height, max, format@),
    ensures
        encoded_view(result) == encode_spec(
            picture.pixels@,
            picture.width,
            picture.height,
            max,
            format@,
        ),
        result is Ok <==> has_output(picture.width, picture.height, max, format@),
        result matches Ok(encoded) ==> shows(
            encoded@,
            shrunk_pixels(picture.pixels@, picture.width, picture.height, max),
            format@,
        ),
{
    let (width, height) = output_size(picture.width, picture.height, max);
    let shown = if longer(picture.width, picture.height) > max {
        proof {
            lemma_shrunk_fits(picture.width, picture.height, max);
        }
        resize(picture, width, height)
    } else {
        picture
    };
    let file = if same_text(format, "jpeg") {
        jpeg_encode(to_rgb8(shown), width, height, JPEG_QUALITY)
    } else {
        png_encode(shown)
    };
    label_file(file, format, width, height)
}

proof fn lemma_shrunk_fits(width: u32, height: u32, max: u32)
    requires
        max <= LONGEST_OUTPUT_SIDE,
        longest_side(width, height) > max,
        16 * (width * shrunk_size(width, height, max).1) <= isize::MAX,
    ensures
        ({
            let (new_width, new_height) = shrunk_size(width, height, max);
            &&& 1 <= new_width <= LONGEST_OUTPUT_SIDE
            &&& 1 <= new_height <= LONGEST_OUTPUT_SIDE
            &&& width > 0 ==> new_width <= width
            &&& height > 0 ==> new_height <= height
            &&& 16 * (new_width * new_height) <= isize::MAX
        }),
{
    let (new_width, new_height) = shrunk_size(width, height, max);
    let longest = longest_side(width, height);
    if max == 0 {
        scaled_to_nothing(width as nat, longest as nat);
        scaled_to_nothing(height as nat, longest as nat);
    } else {
        output_fits(width, height, max);
        if width > 0 {
            assert(new_width * new_height <= width * new_height) by (nonlinear_arith)
                requires
                    new_width <= width,
            ;
        } else {
            assert(new_width == 1) by (nonlinear_arith)
                requires
                    new_width == 1 || 2 * (new_width * longest) <= 2 * (width * max) + longest,
                    width == 0,
                    new_width >= 1,
                    longest > 0,
            ;
        }
    }
}

/// A picture that has pixels can always be encoded when it is shrunk to a side that a JPEG file can
/// hold; so can an empty picture with a side that has to be shrunk, since no side vanishes.
pub proof fn encoding_succeeds(width: u32, height: u32, max: u32, format: Seq<char>)
    requires
        0 < max <= LONGEST_OUTPUT_SIDE,
    ensures
        has_output(width, height, max, format) <==> (width > 0 && height > 0) || longest_side(width, height)
            > max,
{
    output_fits(width, height, max);
}

/// The pixels that Studio sent: their size, and the bytes in base64.
#[derive(Debug)]
pub struct ReadReply {
    pub width: u32,
    pub height: u32,
    pub pixels: String,
}

/// What becomes of the pixels that Studio sent, once they are read.
pub open spec fn screenshot_spec(
    raw: Result<Seq<u8>, Seq<char>>,
    width: u32,
    height: u32,
    max: u32,
    format: Seq<char>,
) -> Result<EncodedView, Seq<char>> {
    match raw {
        Err(reason) => Err("Invalid base64 pixel data from Studio: "@ + reason),
        Ok(pixels) => if !holds(pixels.len(), width, height) {
            Err(
                "Pixel data does not match reported size "@ + decimal_spec(width as nat) + "x"@
                    + decimal_spec(height as nat),
            )
        } else {
            encode_spec(pixels, width, height, max, format)
        },
    }
}

/// Whether pixels of this length can be encoded, or hold no picture of this size and are refused.
pub open spec fn screenshot_encodable(length: nat, width: u32, height: u32, max: u32, format: Seq<char>) -> bool {
    holds(length, width, height) ==> encodable(length, width, height, max, format)
}

/// Whether the pixels that Studio sent become an encoded picture: they can be read, they hold a
/// picture of the reported size, and encoding it succeeds.
pub open spec fn screenshot_succeeds(
    raw: Result<Seq<u8>, Seq<char>>,
    width: u32,
    height: u32,
    max: u32,
    format: Seq<char>,
) -> bool {
    &&& raw matches Ok(pixels) && holds(pixels.len(), width, height)
    &&& has_output(width, height, max, format)
}

/// Encodes the pixels that Studio sent, once they are read.
pub fn encode_pixels(
    raw: Result<Vec<u8>, String>,
    width: u32,
    height: u32,
    max: u32,
    format: &str,
) -> (result: Result<EncodedScreenshot, String>)
    requires
        raw matches Ok(pixels) ==> screenshot_encodable(pixels@.len(), width, height, max, format@),
    ensures
        encoded_view(result) == screenshot_spec(
            bytes_view(raw),
            width,
            height,
            max,
            format@,
        ),
        result is Ok <==> screenshot_succeeds(bytes_view(raw), width, height, max, format@),
        result matches Ok(encoded) ==> raw matches Ok(pixels) && shows(
            encoded@,
            shrunk_pixels(pixels@, width, height, max),
            format@,
        ),
{
    let pixels = match raw {
        Ok(pixels) => pixels,
        Err(reason) => {
            let mut message = "Invalid base64 pixel data from Studio: ".to_owned();
            message.append(reason.as_str());
            return Err(message);
        },
    };
    match RgbaImage::from_raw(width, height, pixels) {
        Some(picture) => encode_rgba(picture, max, format),
        None => {
            let mut message = "Pixel data does not match reported size ".to_owned();
            message.append(decimal(width as u128).as_str());
            message.append("x");
            message.append(decimal(height as u128).as_str());
            Err(message)
        },
    }
}

/// Decodes the raw pixels that Studio sent and encodes them as PNG or JPEG, shrunk until the longest
/// side measures at most `max`.
pub fn encode_screenshot(read: &ReadReply, max: u32, format: &str) -> (result: Result<
    EncodedScreenshot,
    String,
>)
    requires
        forall|raw: Seq<u8>| #[trigger]
            base64_text(raw) == read.pixels@ ==> screenshot_encodable(
                raw.len(),
                read.width,
                read.height,
                max,
                format@,
            ),
    ensures
        encoded_view(result) == screenshot_spec(
            base64_decoded(read.pixels@),
            read.width,
            read.height,
            max,
            format@,
        ),
        result is Ok <==> screenshot_succeeds(
            base64_decoded(read.pixels@),
            read.width,
            read.height,
            max,
            format@,
        ),
        result matches Ok(encoded) ==> base64_decoded(read.pixels@) matches Ok(pixels) && shows(
            encoded@,
            shrunk_pixels(pixels, read.width, read.height, max),
            format@,
        ),
{
    encode_pixels(base64_decode(read.pixels.as_str()), read.width, read.height, max, format)
}

/// Decodes and encodes the pixels that Studio sent, where they can be encoded: there is no answer
/// where the work does not fit into memory, or where a PNG file is asked for and bytes follow the
/// last pixel.
pub fn try_encode_screenshot(read: &ReadReply, max: u32, format: &str) -> (result: Option<
    Result<EncodedScreenshot, String>,
>)
    ensures
        match result {
            Some(result) => encoded_view(result) == screenshot_spec(
                base64_decoded(read.pixels@),
                read.width,
                read.height,
                max,
                format@,
            ),
            None => base64_decoded(read.pixels@) matches Ok(raw) && !screenshot_encodable(
                raw.len(),
                read.width,
                read.height,
                max,
                format@,
            ),
        },
        base64_decoded(read.pixels@) matches Ok(raw) && !screenshot_encodable(
            raw.len(),
            read.width,
            read.height,
            max,
            format@,
        ) ==> result is None,
        result matches Some(result) ==> (result is Ok <==> screenshot_succeeds(
            base64_decoded(read.pixels@),
            read.width,
            read.height,
            max,
            format@,
        )),
        result matches Some(Ok(encoded)) ==> base64_decoded(read.pixels@) matches Ok(pixels) && shows(
            encoded@,
            shrunk_pixels(pixels, read.width, read.height, max),
            format@,
        ),
{
    let raw = base64_decode(read.pixels.as_str());
    let fits = match &raw {
        Ok(pixels) => !holds_picture(pixels.len(), read.width, read.height) || is_encodable(
            pixels.len(),
            read.width,
            read.height,
            max,
            format,
        ),
        Err(_) => true,
    };
    if fits {
        Some(encode_pixels(raw, read.width, read.height, max, format))
    } else {
        None
    }
}

} // verus!
