//! Block texture compression: RGBA8 pixel buffers to and from the BC1, BC2
//! and BC3 formats, which store each 4x4 tile of pixels in a fixed number of
//! bytes.

use vstd::prelude::*;

verus! {

/// A block compression format.
#[derive(Clone, Copy, Debug, PartialEq, Eq, Structural)]
pub enum TextureFormat {
    /// Colour only, with one-bit alpha: 8 bytes per block.
    Bc1,
    /// Explicit 4-bit alpha per pixel, then colour: 16 bytes per block.
    Bc2,
    /// Interpolated alpha, then colour: 16 bytes per block.
    Bc3,
}

/// Why a texture call refused its input.
#[derive(Clone, Copy, Debug, PartialEq, Eq, Structural)]
pub enum CodecError {
    /// The format id is none of 0 (BC1), 1 (BC2) and 2 (BC3).
    InvalidFormat,
    /// A buffer size for these dimensions does not fit in `usize`.
    SizeOverflow,
    /// The pixel buffer does not hold `width * height * 4` bytes.
    PixelLengthMismatch,
    /// The compressed buffer does not hold the compressed size in bytes.
    DataLengthMismatch,
}

/// Bytes per pixel of a pixel buffer: red, green, blue, alpha.
pub const BYTES_PER_PIXEL: usize = 4;

/// Side of the square tile that one block holds.
pub const BLOCK_SIDE: usize = 4;

pub open spec fn format_of_id(id: u8) -> Option<TextureFormat> {
    if id == 0 {
        Some(TextureFormat::Bc1)
    } else if id == 1 {
        Some(TextureFormat::Bc2)
    } else if id == 2 {
        Some(TextureFormat::Bc3)
    } else {
        None
    }
}

pub open spec fn bytes_per_block(f: TextureFormat) -> nat {
    match f {
        TextureFormat::Bc1 => 8,
        _ => 16,
    }
}

/// Blocks needed along a side of `n` pixels: `ceil(n / 4)`.
pub open spec fn blocks_along(n: nat) -> nat {
    (n + 3) / 4
}

/// Bytes of the compressed form of a `width` x `height` image.
pub open spec fn compressed_len(f: TextureFormat, width: nat, height: nat) -> nat {
    blocks_along(width) * blocks_along(height) * bytes_per_block(f)
}

/// Bytes of a `width` x `height` pixel buffer.
pub open spec fn pixel_len(width: nat, height: nat) -> nat {
    width * height * 4
}

/// Both buffer sizes of a `width` x `height` image in `f` fit in `usize`.
pub open spec fn sizes_fit(f: TextureFormat, width: nat, height: nat) -> bool {
    compressed_len(f, width, height) <= usize::MAX && pixel_len(width, height) <= usize::MAX
}

/// What `length` returns.
pub open spec fn length_of(id: u8, width: nat, height: nat) -> Result<usize, CodecError> {
    match format_of_id(id) {
        None => Err(CodecError::InvalidFormat),
        Some(f) => if compressed_len(f, width, height) <= usize::MAX {
            Ok(compressed_len(f, width, height) as usize)
        } else {
            Err(CodecError::SizeOverflow)
        },
    }
}

/// The checks that `encode` makes before any work: the format it names, or
/// the first error that stops it. `pixels` is the pixel buffer's length.
pub open spec fn encode_check(id: u8, width: nat, height: nat, pixels: nat) -> Result<TextureFormat, CodecError> {
    match format_of_id(id) {
        None => Err(CodecError::InvalidFormat),
        Some(f) => if !sizes_fit(f, width, height) {
            Err(CodecError::SizeOverflow)
        } else if pixels != pixel_len(width, height) {
            Err(CodecError::PixelLengthMismatch)
        } else {
            Ok(f)
        },
    }
}

/// The checks that `decode` makes before any work: the format it names, or
/// the first error that stops it. `data` is the compressed buffer's length.
pub open spec fn decode_check(id: u8, width: nat, height: nat, data: nat) -> Result<TextureFormat, CodecError> {
    match format_of_id(id) {
        None => Err(CodecError::InvalidFormat),
        Some(f) => if !sizes_fit(f, width, height) {
            Err(CodecError::SizeOverflow)
        } else if data != compressed_len(f, width, height) {
            Err(CodecError::DataLengthMismatch)
        } else {
            Ok(f)
        },
    }
}

/// The blocks that the block compressor writes for a `width` x `height`
/// RGBA8 image with its default parameters (cluster fit, perceptual weights).
pub uninterp spec fn block_encoding(f: TextureFormat, width: usize, height: usize, pixels: Seq<u8>) -> Seq<u8>;

/// The RGBA8 pixels that the block decompressor reads out of the blocks of a
/// `width` x `height` image.
pub uninterp spec fn block_decoding(f: TextureFormat, width: usize, height: usize, data: Seq<u8>) -> Seq<u8>;

/// A pixel buffer with its dimensions: `width * height` pixels, four bytes
/// each (red, green, blue, alpha), row by row, with no padding.
pub struct ImageData {
    pub width: usize,
    pub height: usize,
    pub data: Vec<u8>,
}

impl ImageData {
    pub open spec fn wf(&self) -> bool {
        self.data@.len() == pixel_len(self.width as nat, self.height as nat)
    }

    /// Pairs a pixel buffer with its dimensions, refusing a buffer whose
    /// length is not `width * height * 4`.
    pub fn new(width: usize, height: usize, data: Vec<u8>) -> (r: Result<ImageData, CodecError>)
        ensures
            pixel_len(width as nat, height as nat) > usize::MAX ==> r == Err::<ImageData, CodecError>(CodecError::SizeOverflow),
            pixel_len(width as nat, height as nat) <= usize::MAX && data@.len() != pixel_len(width as nat, height as nat)
                ==> r == Err::<ImageData, CodecError>(CodecError::PixelLengthMismatch),
            data@.len() == pixel_len(width as nat, height as nat) ==> (r matches Ok(img)
                && img.width == width && img.height == height && img.data@ == data@ && img.wf()),
    {
        let len = data.len();
        match pixel_size(width, height) {
            None => Err(CodecError::SizeOverflow),
            Some(n) => if len != n {
                Err(CodecError::PixelLengthMismatch)
            } else {
                Ok(ImageData { width, height, data })
            },
        }
    }
}

/// The format that a format id names.
fn as_dxt_format(format_id: u8) -> (r: Result<TextureFormat, CodecError>)
    ensures
        r == (match format_of_id(format_id) {
            Some(f) => Ok(f),
            None => Err(CodecError::InvalidFormat),
        }),
{
    match format_id {
        0 => Ok(TextureFormat::Bc1),
        1 => Ok(TextureFormat::Bc2),
        2 => Ok(TextureFormat::Bc3),
        _ => Err(CodecError::InvalidFormat),
    }
}

fn block_bytes(f: TextureFormat) -> (r: usize)
    ensures
        r as nat == bytes_per_block(f),
{
    match f {
        TextureFormat::Bc1 => 8,
        _ => 16,
    }
}

/// `ceil(n / 4)`, without the overflow of `(n + 3) / 4`.
fn block_count(n: usize) -> (r: usize)
    ensures
        r as nat == blocks_along(n as nat),
{
    if n % BLOCK_SIDE == 0 {
        n / BLOCK_SIDE
    } else {
        n / BLOCK_SIDE + 1
    }
}

/// `width * height * 4`, or `None` when it does not fit in `usize`.
fn pixel_size(width: usize, height: usize) -> (r: Option<usize>)
    ensures
        pixel_len(width as nat, height as nat) <= usize::MAX ==> r == Some(pixel_len(width as nat, height as nat) as usize),
        pixel_len(width as nat, height as nat) > usize::MAX ==> r is None,
{
    match width.checked_mul(height) {
        None => {
            proof {
                lemma_product_grows(width as nat * height as nat, 4);
            }
            None
        },
        Some(area) => area.checked_mul(BYTES_PER_PIXEL),
    }
}

/// Bytes of the compressed form, or `None` when it does not fit in `usize`.
fn compressed_size(f: TextureFormat, width: usize, height: usize) -> (r: Option<usize>)
    ensures
        compressed_len(f, width as nat, height as nat) <= usize::MAX ==> r == Some(compressed_len(f, width as nat, height as nat) as usize),
        compressed_len(f, width as nat, height as nat) > usize::MAX ==> r is None,
{
    let bw = block_count(width);
    let bh = block_count(height);
    let per = block_bytes(f);
    match bw.checked_mul(bh) {
        None => {
            proof {
                lemma_product_grows(bw as nat * bh as nat, per as nat);
            }
            None
        },
        Some(blocks) => blocks.checked_mul(per),
    }
}

proof fn lemma_product_grows(a: nat, b: nat)
    requires
        b >= 1,
    ensures
        a * b >= a,
{
    assert(a * b >= a) by (nonlinear_arith)
        requires
            b >= 1,
    ;
}

/// Relies on squish's `Format::compress` with `Params::default()`: it fills
/// the first `compressed_size` bytes of `out` with the blocks of the image,
/// reading `width * height * 4` pixel bytes; it panics on a shorter `out`.
/// Its block counts add 3 to each dimension, which a non-empty image whose
/// pixel buffer fits in `usize` keeps in range.
#[verifier::external_body]
fn squish_compress(f: TextureFormat, pixels: &[u8], width: usize, height: usize, out: &mut Vec<u8>)
    requires
        width >= 1 && height >= 1,
        sizes_fit(f, width as nat, height as nat),
        pixels@.len() == pixel_len(width as nat, height as nat),
        old(out)@.len() == compressed_len(f, width as nat, height as nat),
    ensures
        final(out)@ == block_encoding(f, width, height, pixels@),
        final(out)@.len() == old(out)@.len(),
{
    let format = match f {
        TextureFormat::Bc1 => squish::Format::Bc1,
        TextureFormat::Bc2 => squish::Format::Bc2,
        TextureFormat::Bc3 => squish::Format::Bc3,
    };
    format.compress(pixels, width, height, squish::Params::default(), &mut out[..]);
}

/// Relies on squish's `Format::decompress`: it reads the blocks of `data` and
/// writes every one of the `width * height * 4` pixel bytes of `out`, leaving
/// out the block padding beyond the image's edges. Its block counts add 3 to
/// each dimension, which a non-empty image whose pixel buffer fits in `usize`
/// keeps in range.
#[verifier::external_body]
fn squish_decompress(f: TextureFormat, data: &[u8], width: usize, height: usize, out: &mut Vec<u8>)
    requires
        width >= 1 && height >= 1,
        sizes_fit(f, width as nat, height as nat),
        data@.len() == compressed_len(f, width as nat, height as nat),
        old(out)@.len() == pixel_len(width as nat, height as nat),
    ensures
        final(out)@ == block_decoding(f, width, height, data@),
        final(out)@.len() == old(out)@.len(),
{
    let format = match f {
        TextureFormat::Bc1 => squish::Format::Bc1,
        TextureFormat::Bc2 => squish::Format::Bc2,
        TextureFormat::Bc3 => squish::Format::Bc3,
    };
    format.decompress(data, width, height, &mut out[..]);
}

/// The compressed size in bytes of a `width` x `height` image in the format
/// with id `format`: `ceil(width / 4) * ceil(height / 4)` blocks of 8 (BC1)
/// or 16 (BC2, BC3) bytes.
pub fn length(format: u8, width: usize, height: usize) -> (r: Result<usize, CodecError>)
    ensures
        r == length_of(format, width as nat, height as nat),
{
    let f = match as_dxt_format(format) {
        Ok(f) => f,
        Err(e) => return Err(e),
    };
    match compressed_size(f, width, height) {
        Some(n) => Ok(n),
        None => Err(CodecError::SizeOverflow),
    }
}

/// Compresses a `width` x `height` RGBA8 pixel buffer into the blocks of the
/// format with id `format`, in row-major block order. The result holds
/// exactly `length(format, width, height)` bytes.
pub fn encode(format: u8, width: usize, height: usize, data: Vec<u8>) -> (r: Result<Vec<u8>, CodecError>)
    ensures
        match encode_check(format, width as nat, height as nat, data@.len()) {
            Err(e) => r == Err::<Vec<u8>, CodecError>(e),
            Ok(f) => r matches Ok(out)
                && (if width == 0 || height == 0 {
                    out@ == Seq::<u8>::empty()
                } else {
                    out@ == block_encoding(f, width, height, data@)
                })
                && out@.len() == compressed_len(f, width as nat, height as nat)
                && length_of(format, width as nat, height as nat) == Ok::<usize, CodecError>(out@.len() as usize),
        },
{
    let f = match as_dxt_format(format) {
        Ok(f) => f,
        Err(e) => return Err(e),
    };
    let size = match compressed_size(f, width, height) {
        Some(n) => n,
        None => return Err(CodecError::SizeOverflow),
    };
    let npix = match pixel_size(width, height) {
        Some(n) => n,
        None => return Err(CodecError::SizeOverflow),
    };
    if data.len() != npix {
        return Err(CodecError::PixelLengthMismatch);
    }
    if width == 0 || height == 0 {
        proof {
            lemma_empty_dimensions(f, width as nat, height as nat);
        }
        return Ok(Vec::new());
    }
    let mut out: Vec<u8> = vec![0u8; size];
    squish_compress(f, data.as_slice(), width, height, &mut out);
    Ok(out)
}

/// Decompresses the blocks of a `width` x `height` image in the format with
/// id `format` into an RGBA8 pixel buffer of exactly `width * height * 4`
/// bytes; the padding of edge blocks is left out.
pub fn decode(format: u8, width: usize, height: usize, data: Vec<u8>) -> (r: Result<Vec<u8>, CodecError>)
    ensures
        match decode_check(format, width as nat, height as nat, data@.len()) {
            Err(e) => r == Err::<Vec<u8>, CodecError>(e),
            Ok(f) => r matches Ok(out)
                && (if width == 0 || height == 0 {
                    out@ == Seq::<u8>::empty()
                } else {
                    out@ == block_decoding(f, width, height, data@)
                })
                && out@.len() == pixel_len(width as nat, height as nat),
        },
{
    let f = match as_dxt_format(format) {
        Ok(f) => f,
        Err(e) => return Err(e),
    };
    let size = match compressed_size(f, width, height) {
        Some(n) => n,
        None => return Err(CodecError::SizeOverflow),
    };
    let npix = match pixel_size(width, height) {
        Some(n) => n,
        None => return Err(CodecError::SizeOverflow),
    };
    if data.len() != size {
        return Err(CodecError::DataLengthMismatch);
    }
    if width == 0 || height == 0 {
        proof {
            lemma_empty_dimensions(f, width as nat, height as nat);
        }
        return Ok(Vec::new());
    }
    let mut out: Vec<u8> = vec![0u8; npix];
    squish_decompress(f, data.as_slice(), width, height, &mut out);
    Ok(out)
}

/// Every image that `encode` accepts compresses to exactly the number of
/// bytes that `length` gives for its format and dimensions.
pub proof fn lemma_encoded_size(format: u8, width: usize, height: usize, pixels: Seq<u8>)
    requires
        encode_check(format, width as nat, height as nat, pixels.len()) is Ok,
    ensures
        length_of(format, width as nat, height as nat) == Ok::<usize, CodecError>(
            compressed_len(encode_check(format, width as nat, height as nat, pixels.len())->Ok_0, width as nat, height as nat) as usize,
        ),
{
}

/// An image with no rows or no columns compresses to nothing, in every
/// format: its compressed size is 0.
pub proof fn lemma_empty_image_size(format: u8, width: usize, height: usize)
    requires
        format_of_id(format) is Some,
        width == 0 || height == 0,
    ensures
        length_of(format, width as nat, height as nat) == Ok::<usize, CodecError>(0),
{
    lemma_empty_dimensions(format_of_id(format)->0, width as nat, height as nat);
}

proof fn lemma_empty_dimensions(f: TextureFormat, width: nat, height: nat)
    requires
        width == 0 || height == 0,
    ensures
        compressed_len(f, width, height) == 0,
        pixel_len(width, height) == 0,
{
    let bw = blocks_along(width);
    let bh = blocks_along(height);
    assert(bw * bh == 0 && width * height == 0) by (nonlinear_arith)
        requires
            bw == 0 || bh == 0,
            width == 0 || height == 0,
    ;
}

} // verus!
