//! Images as text: PNG bytes in base64 behind a data-URL prefix.
//!
//! The PNG and base64 codecs are outside code. Each is called through one
//! trusted wrapper, and what it returns is given a name; the contracts of
//! this module say how those named results are put together.

use vstd::prelude::*;
use vstd::slice::slice_subrange;
use vstd::string::StringExecFns;
use vstd::string::StringSliceAdditionalSpecFns;
use vstd::utf8::encode_utf8;
use crate::error::{CodecError, CodecFault};
use crate::pixel::{PixelBuffer, Raster};

verus! {

/// The PNG encoding of an RGBA image of the given size and bytes, as the
/// `image` crate writes it, or the reason why it refuses.
pub uninterp spec fn png_encoding(width: u32, height: u32, pixels: Seq<u8>) -> Result<
    Seq<u8>,
    Seq<char>,
>;

/// The image that the `image` crate reads from the given bytes when it
/// reads them as PNG, as width, height and RGBA bytes, or the reason why it
/// reads none.
pub uninterp spec fn decoded_image(bytes: Seq<u8>) -> Result<(u32, u32, Seq<u8>), Seq<char>>;

/// The standard padded base64 text of the given bytes, as the `base64`
/// crate writes it.
pub uninterp spec fn base64_text(bytes: Seq<u8>) -> Seq<char>;

/// The bytes that the `base64` crate's standard engine reads from the given
/// text, or the reason why it reads none.
pub uninterp spec fn base64_bytes(text: Seq<u8>) -> Result<Seq<u8>, Seq<char>>;

/// Encodes RGBA bytes as PNG with `image::DynamicImage::write_to`.
///
/// Trusted: the outcome is `png_encoding` of the arguments, the bytes on
/// success and the error's text on failure.
#[verifier::external_body]
fn png_encode(width: u32, height: u32, pixels: &Vec<u8>) -> (encoded: Result<Vec<u8>, String>)
    requires
        width >= 1,
        height >= 1,
        pixels.len() == 4 * width * height,
    ensures
        match encoded {
            Ok(bytes) => png_encoding(width, height, pixels@) == Ok::<Seq<u8>, Seq<char>>(bytes@),
            Err(reason) => png_encoding(width, height, pixels@) == Err::<Seq<u8>, Seq<char>>(
                reason@,
            ),
        },
{
    let source = image::RgbaImage::from_raw(width, height, pixels.clone()).unwrap();
    let mut bytes: Vec<u8> = Vec::new();
    let written = image::DynamicImage::ImageRgba8(source).write_to(
        &mut std::io::Cursor::new(&mut bytes),
        image::ImageFormat::Png,
    );
    match written {
        Ok(()) => Ok(bytes),
        Err(error) => Err(error.to_string()),
    }
}

/// Reads a PNG image from bytes with `image::load_from_memory_with_format`
/// and converts it to RGBA. The format is given, not guessed, so that what
/// is read depends on the bytes alone.
///
/// Trusted: the outcome is `decoded_image` of the bytes, the size and RGBA
/// bytes on success and the error's text on failure.
#[verifier::external_body]
fn decode_image(bytes: &Vec<u8>) -> (decoded: Result<(u32, u32, Vec<u8>), String>)
    ensures
        match decoded {
            Ok((width, height, pixels)) => decoded_image(bytes@) == Ok::<
                (u32, u32, Seq<u8>),
                Seq<char>,
            >((width, height, pixels@)),
            Err(reason) => decoded_image(bytes@) == Err::<(u32, u32, Seq<u8>), Seq<char>>(
                reason@,
            ),
        },
{
    match image::load_from_memory_with_format(bytes.as_slice(), image::ImageFormat::Png) {
        Ok(loaded) => {
            let rgba = loaded.into_rgba8();
            Ok((rgba.width(), rgba.height(), rgba.into_raw()))
        },
        Err(error) => Err(error.to_string()),
    }
}

/// Whether the base64 text of `length` bytes can be held in a string.
pub open spec fn base64_fits(length: int) -> bool {
    (length + 2) / 3 * 4 <= usize::MAX
}

/// Writes bytes as base64 with the `base64` crate's standard engine.
///
/// Trusted: the text is `base64_text` of the bytes. The precondition keeps
/// away the lengths whose encoding cannot be counted in a `usize`.
#[verifier::external_body]
fn base64_encode(bytes: &Vec<u8>) -> (text: String)
    requires
        base64_fits(bytes.len() as int),
    ensures
        text@ == base64_text(bytes@),
{
    base64::Engine::encode(&base64::engine::general_purpose::STANDARD, bytes.as_slice())
}

/// Reads base64 text with the `base64` crate's standard engine.
///
/// Trusted: the outcome is `base64_bytes` of the text, the bytes on success
/// and the error's text on failure.
#[verifier::external_body]
fn base64_decode(text: &[u8]) -> (decoded: Result<Vec<u8>, String>)
    ensures
        match decoded {
            Ok(bytes) => base64_bytes(text@) == Ok::<Seq<u8>, Seq<char>>(bytes@),
            Err(reason) => base64_bytes(text@) == Err::<Seq<u8>, Seq<char>>(reason@),
        },
{
    match base64::Engine::decode(&base64::engine::general_purpose::STANDARD, text) {
        Ok(bytes) => Ok(bytes),
        Err(error) => Err(error.to_string()),
    }
}

/// The bytes of `data:image/`, with which a data URL of an image starts.
pub open spec fn data_url_start() -> Seq<u8> {
    seq![0x64u8, 0x61u8, 0x74u8, 0x61u8, 0x3au8, 0x69u8, 0x6du8, 0x61u8, 0x67u8, 0x65u8, 0x2fu8]
}

/// Whether the text starts like a data URL of an image.
pub open spec fn is_data_url(text: Seq<u8>) -> bool {
    text.len() >= 11 && text.subrange(0, 11) == data_url_start()
}

/// The position of the first comma at or after `start`, or the text's
/// length if there is none.
pub open spec fn comma_from(text: Seq<u8>, start: int) -> int
    decreases text.len() - start,
{
    if start < 0 || start >= text.len() {
        text.len() as int
    } else if text[start] == 0x2cu8 {
        start
    } else {
        comma_from(text, start + 1)
    }
}

/// The range of the base64 payload within the text: the whole text unless
/// it starts like a data URL; in a data URL, what stands between the first
/// comma and the second, or the end. A data URL without a comma has none.
pub open spec fn payload_range(text: Seq<u8>) -> Option<(int, int)> {
    if !is_data_url(text) {
        Some((0int, text.len() as int))
    } else {
        let first = comma_from(text, 0);
        if first >= text.len() {
            None
        } else {
            Some((first + 1, comma_from(text, first + 1)))
        }
    }
}

/// Finds the first comma at or after `start`.
fn find_comma(text: &[u8], start: usize) -> (found: usize)
    requires
        start <= text@.len(),
    ensures
        found == comma_from(text@, start as int),
        start <= found <= text@.len(),
{
    let mut i: usize = start;
    while i < text.len()
        invariant
            start <= i <= text@.len(),
            comma_from(text@, start as int) == comma_from(text@, i as int),
        decreases text@.len() - i,
    {
        if text[i] == 0x2cu8 {
            return i;
        }
        i = i + 1;
    }
    i
}

/// Decides whether the text starts like a data URL of an image.
fn starts_like_data_url(text: &[u8]) -> (starts: bool)
    ensures
        starts == is_data_url(text@),
{
    if text.len() < 11 {
        return false;
    }
    let starts = text[0] == 0x64u8 && text[1] == 0x61u8 && text[2] == 0x74u8 && text[3] == 0x61u8
        && text[4] == 0x3au8 && text[5] == 0x69u8 && text[6] == 0x6du8 && text[7] == 0x61u8
        && text[8] == 0x67u8 && text[9] == 0x65u8 && text[10] == 0x2fu8;
    proof {
        let head = text@.subrange(0, 11);
        if starts {
            assert(head =~= data_url_start());
        } else {
            assert(head[0] == text@[0] && head[1] == text@[1] && head[2] == text@[2] && head[3]
                == text@[3] && head[4] == text@[4] && head[5] == text@[5] && head[6] == text@[6]
                && head[7] == text@[7] && head[8] == text@[8] && head[9] == text@[9] && head[10]
                == text@[10]);
        }
    }
    starts
}

/// Finds the base64 payload of a text that may be a data URL.
pub fn locate_payload(text: &[u8]) -> (range: Option<(usize, usize)>)
    ensures
        match range {
            Some((from, to)) => payload_range(text@) == Some((from as int, to as int)) && from
                <= to <= text@.len(),
            None => payload_range(text@) is None,
        },
{
    if !starts_like_data_url(text) {
        return Some((0, text.len()));
    }
    let first = find_comma(text, 0);
    if first >= text.len() {
        return None;
    }
    let second = find_comma(text, first + 1);
    Some((first + 1, second))
}

/// What reading an image from text gives: the payload is located, read as
/// base64, read as a PNG image, and the image checked for its size.
pub open spec fn image_of(text: Seq<u8>) -> Result<Raster, CodecFault> {
    match payload_range(text) {
        None => Err(CodecFault::InvalidDataUrl),
        Some((from, to)) => match base64_bytes(text.subrange(from, to)) {
            Err(reason) => Err(CodecFault::Base64(reason)),
            Ok(bytes) => match decoded_image(bytes) {
                Err(reason) => Err(CodecFault::Image(reason)),
                Ok((width, height, pixels)) => {
                    let raster = Raster {
                        width: width as nat,
                        height: height as nat,
                        bytes: pixels,
                    };
                    if raster.wf() {
                        Ok(raster)
                    } else {
                        Err(CodecFault::MalformedImage)
                    }
                },
            },
        },
    }
}

/// The characters of `data:image/png;base64,`, with which every text
/// written by `image_to_base64` starts.
pub open spec fn png_url_start() -> Seq<char> {
    "data:image/png;base64,"@
}

/// What writing an image as text gives: the image is encoded as PNG, and
/// the PNG bytes as base64 behind the data-URL prefix.
pub open spec fn data_url_of(image: Raster) -> Result<Seq<char>, CodecFault> {
    match png_encoding(image.width as u32, image.height as u32, image.bytes) {
        Err(reason) => Err(CodecFault::Encoding(reason)),
        Ok(png) => if base64_fits(png.len() as int) {
            Ok(png_url_start() + base64_text(png))
        } else {
            Err(CodecFault::TooLong)
        },
    }
}

/// Whether `result` is the outcome `wanted`, value or fault.
pub open spec fn is_image_outcome(
    result: Result<PixelBuffer, CodecError>,
    wanted: Result<Raster, CodecFault>,
) -> bool {
    match result {
        Ok(buffer) => wanted == Ok::<Raster, CodecFault>(buffer@),
        Err(error) => wanted == Err::<Raster, CodecFault>(error@),
    }
}

/// Whether `result` is the outcome `wanted`, text or fault.
pub open spec fn is_text_outcome(
    result: Result<String, CodecError>,
    wanted: Result<Seq<char>, CodecFault>,
) -> bool {
    match result {
        Ok(text) => wanted == Ok::<Seq<char>, CodecFault>(text@),
        Err(error) => wanted == Err::<Seq<char>, CodecFault>(error@),
    }
}

/// Reads the outcome of the two decoders into a buffer or a fault.
///
/// This is the part of `base64_to_image` that follows the outside calls: it
/// takes what they returned and has an exact contract of its own.
pub fn image_from_decoded(decoded: Result<(u32, u32, Vec<u8>), String>) -> (result: Result<
    PixelBuffer,
    CodecError,
>)
    ensures
        match decoded {
            Err(reason) => result matches Err(CodecError::Image(text)) && text == reason,
            Ok((width, height, pixels)) => {
                let raster = Raster {
                    width: width as nat,
                    height: height as nat,
                    bytes: pixels@,
                };
                if raster.wf() {
                    result matches Ok(buffer) && buffer@ == raster
                } else {
                    result == Err::<PixelBuffer, CodecError>(CodecError::MalformedImage)
                }
            },
        },
{
    match decoded {
        Err(reason) => Err(CodecError::Image(reason)),
        Ok((width, height, pixels)) => match PixelBuffer::from_raw(width, height, pixels) {
            Some(buffer) => Ok(buffer),
            None => Err(CodecError::MalformedImage),
        },
    }
}

/// Reads a PNG image from base64 text, with or without a data-URL prefix.
pub fn base64_to_image(base64_data: &str) -> (result: Result<PixelBuffer, CodecError>)
    ensures
        is_image_outcome(result, image_of(encode_utf8(base64_data@))),
{
    let text = base64_data.as_bytes();
    let (from, to) = match locate_payload(text) {
        Some(range) => range,
        None => {
            return Err(CodecError::InvalidDataUrl);
        },
    };
    let bytes = match base64_decode(slice_subrange(text, from, to)) {
        Ok(bytes) => bytes,
        Err(reason) => {
            return Err(CodecError::Base64(reason));
        },
    };
    image_from_decoded(decode_image(&bytes))
}

/// Decides whether the base64 text of `length` bytes can be held.
pub fn check_base64_fits(length: usize) -> (fits: bool)
    ensures
        fits == base64_fits(length as int),
{
    (length as u128 + 2) / 3 * 4 <= usize::MAX as u128
}

/// Puts the data-URL prefix before base64 text, or reports why there is no
/// text.
///
/// This is the part of `image_to_base64` that follows the PNG encoder: it
/// takes what the encoder returned and has an exact contract of its own.
pub fn data_url_from_png(encoded: Result<Vec<u8>, String>) -> (result: Result<String, CodecError>)
    ensures
        match encoded {
            Err(reason) => result matches Err(CodecError::Encoding(text)) && text == reason,
            Ok(png) => if base64_fits(png@.len() as int) {
                result matches Ok(text) && text@ == png_url_start() + base64_text(png@)
            } else {
                result == Err::<String, CodecError>(CodecError::TooLong)
            },
        },
{
    match encoded {
        Err(reason) => Err(CodecError::Encoding(reason)),
        Ok(png) => {
            if !check_base64_fits(png.len()) {
                return Err(CodecError::TooLong);
            }
            let text = base64_encode(&png);
            Ok(String::from_str("data:image/png;base64,").concat(text.as_str()))
        },
    }
}

/// Writes an image as a data URL: PNG bytes in base64 behind
/// `data:image/png;base64,`.
pub fn image_to_base64(image: &PixelBuffer) -> (result: Result<String, CodecError>)
    ensures
        is_text_outcome(result, data_url_of(image@)),
{
    let width = image.width();
    let height = image.height();
    let pixels = image.as_raw();
    assert(pixels@.len() == pixels.len());
    data_url_from_png(png_encode(width, height, pixels))
}

} // verus!
