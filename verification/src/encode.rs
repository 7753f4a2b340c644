use image::png::PNGEncoder;
use image::ColorType;
use vstd::prelude::*;

verus! {

/// The error type of std's I/O, which the PNG encoder reports its failures in. The
/// library carries such a value to its caller and never looks inside.
#[verifier::external_type_specification]
#[verifier::external_body]
pub struct ExIoError(std::io::Error);

/// What the PNG encoder of the `image` crate comes to for a picture of `width` by
/// `height` pixels, one gray byte each, from the buffer `pixels`, when it writes into
/// memory: the bytes of the file, or `None` where it fails.
pub uninterp spec fn png_file(pixels: Seq<u8>, width: u32, height: u32) -> Option<Seq<u8>>;

/// Why a picture could not be encoded.
#[derive(Debug)]
pub enum EncodeError {
    /// The picture has no pixels, or the buffer too few bytes for it, or a row of it is
    /// too long to be counted on this machine.
    Dimensions,
    /// The encoder failed, with this error.
    Encoder(std::io::Error),
}

/// The width or the height that the encoder is given for a side of the grid: the side
/// itself if 32 bits can hold it, and its lowest 32 bits if they cannot.
pub open spec fn side(length: usize) -> u32 {
    length as u32
}

/// Whether a buffer of `length` bytes holds a picture of `width` by `height` pixels that
/// can be encoded: it has a pixel, the buffer a byte for each, and the bits of a row can
/// be counted.
pub open spec fn encodable(length: nat, width: u32, height: u32) -> bool {
    &&& 0 < width * height <= length
    &&& 8 * width <= usize::MAX
}

/// Calls `image::png::PNGEncoder::encode`, for the color type `Gray(8)` and into a
/// vector. Believed of it: whether it succeeds, and the bytes it then returns, depend on
/// the buffer and the two dimensions alone, and are what `png_file` names. Nothing is
/// claimed about when it succeeds. The precondition keeps the encoder's own size
/// computations within `usize` and away from its "not enough image data" refusal.
#[verifier::external_body]
fn png_encode(pixels: &[u8], width: u32, height: u32) -> (result: Result<Vec<u8>, std::io::Error>)
    requires
        encodable(pixels@.len(), width, height),
    ensures
        (match result {
            Ok(bytes) => png_file(pixels@, width, height) == Some(bytes@),
            Err(_) => png_file(pixels@, width, height) is None,
        }),
{
    let mut bytes = Vec::new();
    match PNGEncoder::new(&mut bytes).encode(pixels, width, height, ColorType::Gray(8)) {
        Ok(()) => Ok(bytes),
        Err(error) => Err(error),
    }
}

/// What the library returns for what the encoder returned: its bytes, or its error as an
/// `EncodeError`.
pub fn encoded(result: Result<Vec<u8>, std::io::Error>) -> (file: Result<Vec<u8>, EncodeError>)
    ensures
        (match result {
            Ok(bytes) => file == Ok::<Vec<u8>, EncodeError>(bytes),
            Err(error) => file == Err::<Vec<u8>, EncodeError>(EncodeError::Encoder(error)),
        }),
{
    match result {
        Ok(bytes) => Ok(bytes),
        Err(error) => Err(EncodeError::Encoder(error)),
    }
}

/// Whether `pixels` holds a picture of `width` by `height` pixels that can be encoded.
fn can_encode(pixels: &[u8], width: u32, height: u32) -> (yes: bool)
    ensures
        yes == encodable(pixels@.len(), width, height),
{
    if width == 0 || height == 0 {
        assert(width * height == 0) by (nonlinear_arith)
            requires
                width == 0 || height == 0,
        ;
        return false;
    }
    assert(0 < width * height <= 0xffff_ffff * 0xffff_ffff) by (nonlinear_arith)
        requires
            0 < width <= 0xffff_ffff,
            0 < height <= 0xffff_ffff,
    ;
    let needed: u64 = width as u64 * height as u64;
    needed <= pixels.len() as u64 && width as u64 <= (usize::MAX / 8) as u64
}

/// Encodes the grayscale picture in `pixels`, of `bounds.0` by `bounds.1` pixels, as a
/// PNG file, and returns the file's bytes.
///
/// Each dimension is handed to the encoder as a 32-bit number. A picture that cannot be
/// encoded is refused as `Dimensions`, and no other is. For one that can, the result is
/// the encoder's: the file where it gives one, and its error where it gives none.
pub fn encode_image(pixels: &[u8], bounds: (usize, usize)) -> (file: Result<Vec<u8>, EncodeError>)
    ensures
        (file matches Err(EncodeError::Dimensions)) <==> !encodable(
            pixels@.len(),
            side(bounds.0),
            side(bounds.1),
        ),
        encodable(pixels@.len(), side(bounds.0), side(bounds.1)) ==> (match file {
            Ok(bytes) => png_file(pixels@, side(bounds.0), side(bounds.1)) == Some(bytes@),
            Err(_) => png_file(pixels@, side(bounds.0), side(bounds.1)) is None,
        }),
{
    let width = #[verifier::truncate] (bounds.0 as u32);
    let height = #[verifier::truncate] (bounds.1 as u32);
    if !can_encode(pixels, width, height) {
        return Err(EncodeError::Dimensions);
    }
    encoded(png_encode(pixels, width, height))
}

} // verus!
