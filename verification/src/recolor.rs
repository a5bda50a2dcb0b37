//! The recolouring of a tile: PNG bytes in, every pixel whose colour the
//! table names repainted, PNG bytes out.
//!
//! The pixels are held as a plain raster of 8-bit red, green, blue and
//! alpha. Reading and writing PNG is the `image` crate's work; the pass over
//! the pixels is done here.

use crate::mask::{MaskSpec, RemapTarget};
use image::codecs::png::{CompressionType, FilterType, PngEncoder};
use image::{ExtendedColorType, ImageEncoder, ImageFormat, ImageReader};
use std::io::Cursor;
use vstd::prelude::*;

verus! {

/// The error of the `image` crate, carried from its calls to where it is
/// turned into a [`RecolorError`].
#[verifier::external_type_specification]
#[verifier::external_body]
pub struct ExImageError(image::ImageError);

/// Why a tile could not be recoloured.
#[derive(Debug, Clone, Copy, PartialEq, Eq, Structural)]
pub enum RecolorError {
    /// The bytes are not a PNG image that can be read.
    Decode,
    /// The recoloured pixels could not be written as PNG.
    Encode,
}

/// What a raster is to a contract: its size and its bytes, four to a
/// pixel, row after row.
pub struct Pixels {
    pub width: u32,
    pub height: u32,
    pub data: Seq<u8>,
}

/// An image in memory: `width` times `height` pixels of red, green, blue
/// and alpha, one byte each, row after row.
pub struct Raster {
    width: u32,
    height: u32,
    data: Vec<u8>,
}

/// The pixels that `image` reads from `bytes` taken as PNG and turned to
/// 8-bit RGBA; `None` where it reports an error.
pub uninterp spec fn png_decoded(bytes: Seq<u8>) -> Option<Pixels>;

/// The PNG bytes that `image` writes for the RGBA pixels `data` of an
/// image `width` by `height`, at its best compression and without a
/// filter; `None` where it reports an error.
pub uninterp spec fn png_encoded(width: u32, height: u32, data: Seq<u8>) -> Option<Seq<u8>>;

/// The colour of a pixel as one number: red, green and blue are its
/// 24 bits, most significant first. Alpha plays no part.
pub open spec fn color_key(red: u8, green: u8, blue: u8) -> u32 {
    (red * 65536 + green * 256 + blue) as u32
}

/// The pixel at place `k` of `data`: its red, green, blue and alpha.
pub open spec fn pixel_at(data: Seq<u8>, k: int) -> RemapTarget {
    (data[4 * k], data[4 * k + 1], data[4 * k + 2], data[4 * k + 3])
}

/// What becomes of a pixel: where the table names its colour, the pixel
/// takes all four channels of the target; otherwise it stays as it is.
pub open spec fn recolored_pixel(pixel: RemapTarget, mask: Map<u32, RemapTarget>) -> RemapTarget {
    let key = color_key(pixel.0, pixel.1, pixel.2);
    if mask.contains_key(key) {
        mask[key]
    } else {
        pixel
    }
}

/// One channel of a pixel: red is channel 0, alpha is channel 3.
pub open spec fn channel(pixel: RemapTarget, c: int) -> u8 {
    if c == 0 {
        pixel.0
    } else if c == 1 {
        pixel.1
    } else if c == 2 {
        pixel.2
    } else {
        pixel.3
    }
}

/// The byte at place `i` of `data` after recolouring: channel `i % 4` of
/// what becomes of pixel `i / 4`. Bytes at the end that do not make up a
/// whole pixel stay as they are.
pub open spec fn recolored_byte(data: Seq<u8>, mask: Map<u32, RemapTarget>, i: int) -> u8 {
    if 4 * (i / 4) + 4 <= data.len() {
        channel(recolored_pixel(pixel_at(data, i / 4), mask), i % 4)
    } else {
        data[i]
    }
}

/// The bytes of an image after recolouring: every pixel whose colour the
/// table names takes the four channels of its target, every other pixel
/// stays as it is.
pub open spec fn recolored(data: Seq<u8>, mask: Map<u32, RemapTarget>) -> Seq<u8> {
    Seq::new(data.len(), |i: int| recolored_byte(data, mask, i))
}

/// What recolouring the PNG image `raw` gives: the PNG of the recoloured
/// pixels, or the step that failed.
pub open spec fn recolored_png(raw: Seq<u8>, mask: Map<u32, RemapTarget>) -> Result<
    Seq<u8>,
    RecolorError,
> {
    match png_decoded(raw) {
        None => Err(RecolorError::Decode),
        Some(pixels) => match png_encoded(
            pixels.width,
            pixels.height,
            recolored(pixels.data, mask),
        ) {
            None => Err(RecolorError::Encode),
            Some(bytes) => Ok(bytes),
        },
    }
}

/// The bytes of a result, as a contract sees them.
pub open spec fn bytes_of(r: Result<Vec<u8>, RecolorError>) -> Result<Seq<u8>, RecolorError> {
    match r {
        Ok(bytes) => Ok(bytes@),
        Err(e) => Err(e),
    }
}

impl View for Raster {
    type V = Pixels;

    closed spec fn view(&self) -> Pixels {
        Pixels { width: self.width, height: self.height, data: self.data@ }
    }
}

impl Raster {
    /// Whether the raster holds four bytes for each of its pixels.
    pub open spec fn wf(&self) -> bool {
        self@.data.len() == 4 * self@.width * self@.height
    }

    /// A raster of the given size over `data`; `None` unless `data` holds
    /// four bytes for each pixel.
    pub fn new(width: u32, height: u32, data: Vec<u8>) -> (r: Option<Raster>)
        ensures
            r is Some <==> data@.len() == 4 * width * height,
            r matches Some(img) ==> img.wf() && img@ == (Pixels { width, height, data: data@ }),
    {
        assert(0 <= width * height <= 0xffff_ffff * 0xffff_ffff) by (nonlinear_arith)
            requires
                0 <= width <= 0xffff_ffff,
                0 <= height <= 0xffff_ffff,
        ;
        assert(4 * width * height == 4 * (width * height)) by (nonlinear_arith);
        let pixels: u64 = (width as u64) * (height as u64);
        if data.len() as u128 == 4 * (pixels as u128) {
            Some(Raster { width, height, data })
        } else {
            None
        }
    }

    /// How many pixels a row holds.
    pub fn width(&self) -> (w: u32)
        ensures
            w == self@.width,
    {
        self.width
    }

    /// How many rows there are.
    pub fn height(&self) -> (h: u32)
        ensures
            h == self@.height,
    {
        self.height
    }

    /// The bytes of the pixels.
    pub fn data(&self) -> (bytes: &Vec<u8>)
        ensures
            bytes@ == self@.data,
    {
        &self.data
    }

    /// Repaints every pixel whose colour `mask` names with its target, all
    /// four channels at once, and leaves every other pixel as it is.
    pub fn recolor(&mut self, mask: &MaskSpec)
        ensures
            final(self)@.width == old(self)@.width,
            final(self)@.height == old(self)@.height,
            final(self)@.data == recolored(old(self)@.data, mask@),
            old(self).wf() ==> final(self).wf(),
    {
        let n: usize = self.data.len();
        let mut p: usize = 0;
        while n - p >= 4
            invariant
                p <= n,
                p % 4 == 0,
                self.data@.len() == n,
                old(self).data@.len() == n,
                self.width == old(self).width,
                self.height == old(self).height,
                forall|j: int|
                    0 <= j < p ==> self.data@[j] == recolored_byte(old(self).data@, mask@, j),
                forall|j: int| p <= j < n ==> self.data@[j] == old(self).data@[j],
            decreases n - p,
        {
            let key = key_of(self.data[p], self.data[p + 1], self.data[p + 2]);
            match lookup(mask, key) {
                Some(target) => {
                    self.data.set(p, target.0);
                    self.data.set(p + 1, target.1);
                    self.data.set(p + 2, target.2);
                    self.data.set(p + 3, target.3);
                },
                None => {},
            }
            p += 4;
        }
        assert(self.data@ =~= recolored(old(self).data@, mask@));
    }
}

/// The colour of a pixel as a key of the table.
fn key_of(red: u8, green: u8, blue: u8) -> (k: u32)
    ensures
        k == color_key(red, green, blue),
{
    (red as u32) * 65536 + (green as u32) * 256 + (blue as u32)
}

/// The target that `mask` has for `key`, if it names it.
fn lookup(mask: &MaskSpec, key: u32) -> (r: Option<RemapTarget>)
    ensures
        r == (if mask@.contains_key(key) {
            Some(mask@[key])
        } else {
            None
        }),
{
    broadcast use vstd::laws_cmp::group_laws_cmp;

    match mask.get(&key) {
        Some(target) => Some(*target),
        None => None,
    }
}

/// Reads `bytes` as PNG with `image::ImageReader::with_format` and
/// `decode`, and takes the pixels as 8-bit RGBA with
/// `DynamicImage::into_rgba8`. Believed of it: the raster that comes back
/// holds four bytes for each pixel, and the outcome depends on `bytes`
/// alone.
#[verifier::external_body]
fn decode_png(bytes: &Vec<u8>) -> (r: Result<Raster, image::ImageError>)
    ensures
        match r {
            Ok(img) => img.wf() && png_decoded(bytes@) == Some(img@),
            Err(_) => png_decoded(bytes@) is None,
        },
{
    let reader = ImageReader::with_format(Cursor::new(bytes.as_slice()), ImageFormat::Png);
    let rgba = reader.decode()?.into_rgba8();
    Ok(Raster { width: rgba.width(), height: rgba.height(), data: rgba.into_raw() })
}

/// Writes the pixels of `img` as PNG with `image`'s `PngEncoder`, made by
/// `new_with_quality` for the best compression and no filter, through
/// `ImageEncoder::write_image`. Believed of it: the outcome depends on the
/// size and the pixels alone. The call panics on a buffer that does not
/// hold four bytes for each pixel, so such a raster is not admitted.
#[verifier::external_body]
fn encode_png(img: &Raster) -> (r: Result<Vec<u8>, image::ImageError>)
    requires
        img.wf(),
    ensures
        match r {
            Ok(bytes) => png_encoded(img@.width, img@.height, img@.data) == Some(bytes@),
            Err(_) => png_encoded(img@.width, img@.height, img@.data) is None,
        },
{
    let mut bytes: Vec<u8> = Vec::new();
    let encoder = PngEncoder::new_with_quality(
        Cursor::new(&mut bytes),
        CompressionType::Best,
        FilterType::NoFilter,
    );
    encoder.write_image(&img.data, img.width, img.height, ExtendedColorType::Rgba8)?;
    Ok(bytes)
}

/// The most that is kept of what a remote origin sends for one tile, in
/// bytes.
pub const MAX_REMOTE_FILE_SIZE: u64 = 10_485_760;

/// `body` cut off at the most that is kept of a remote tile.
pub open spec fn capped(body: Seq<u8>) -> Seq<u8> {
    if body.len() > MAX_REMOTE_FILE_SIZE {
        body.take(MAX_REMOTE_FILE_SIZE as int)
    } else {
        body
    }
}

/// `body` cut off at the most that is kept of a remote tile.
pub fn cap_body(body: Vec<u8>) -> (kept: Vec<u8>)
    ensures
        kept@ == capped(body@),
{
    let mut kept = body;
    if kept.len() as u64 > MAX_REMOTE_FILE_SIZE {
        kept.truncate(MAX_REMOTE_FILE_SIZE as usize);
    }
    kept
}

/// What the encoder's outcome means to the caller.
pub open spec fn encoding_result(encoded: Option<Seq<u8>>) -> Result<Seq<u8>, RecolorError> {
    match encoded {
        Some(bytes) => Ok(bytes),
        None => Err(RecolorError::Encode),
    }
}

/// Recolours `img` in place according to `mask` and writes the result as
/// PNG, at the best compression and without a filter.
pub fn mask_image(img: &mut Raster, mask: MaskSpec) -> (r: Result<Vec<u8>, RecolorError>)
    requires
        old(img).wf(),
    ensures
        final(img).wf(),
        final(img)@.width == old(img)@.width,
        final(img)@.height == old(img)@.height,
        final(img)@.data == recolored(old(img)@.data, mask@),
        bytes_of(r) == encoding_result(
            png_encoded(old(img)@.width, old(img)@.height, recolored(old(img)@.data, mask@)),
        ),
{
    img.recolor(&mask);
    match encode_png(img) {
        Ok(bytes) => Ok(bytes),
        Err(_) => Err(RecolorError::Encode),
    }
}

/// Recolours a tile read from the local volume: `raw` is read as PNG, its
/// pixels are recoloured according to `mask` and written as PNG again.
pub fn process_local(raw: Vec<u8>, mask: MaskSpec) -> (r: Result<Vec<u8>, RecolorError>)
    ensures
        bytes_of(r) == recolored_png(raw@, mask@),
{
    match decode_png(&raw) {
        Ok(mut img) => mask_image(&mut img, mask),
        Err(_) => Err(RecolorError::Decode),
    }
}

/// Recolours a tile sent by the remote origin: what of `body` lies beyond
/// the cap is dropped, the rest is read as PNG, its pixels are recoloured
/// according to `mask` and written as PNG again.
pub fn process_remote(body: Vec<u8>, mask: MaskSpec) -> (r: Result<Vec<u8>, RecolorError>)
    ensures
        bytes_of(r) == recolored_png(capped(body@), mask@),
{
    process_local(cap_body(body), mask)
}

/// Recolouring with the empty table changes nothing.
pub proof fn law_empty_table_changes_nothing(data: Seq<u8>, mask: Map<u32, RemapTarget>)
    requires
        mask.is_empty(),
    ensures
        recolored(data, mask) == data,
{
    assert forall|i: int| 0 <= i < data.len() implies recolored_byte(data, mask, i)
        == data[i] by {
        let pixel = pixel_at(data, i / 4);
        assert(!mask.contains_key(color_key(pixel.0, pixel.1, pixel.2)));
    }
    assert(recolored(data, mask) =~= data);
}

/// Whether recolouring with `mask` leaves nothing for a second pass: no
/// target has a colour that the table would repaint differently.
pub open spec fn settled(mask: Map<u32, RemapTarget>) -> bool {
    forall|key: u32| #[trigger]
        mask.contains_key(key) ==> {
            let target = mask[key];
            let again = color_key(target.0, target.1, target.2);
            mask.contains_key(again) ==> mask[again] == target
        }
}

/// Recolouring twice with one table is recolouring once, provided that no
/// target has a colour that the table would repaint differently.
pub proof fn law_recolor_twice(data: Seq<u8>, mask: Map<u32, RemapTarget>)
    requires
        settled(mask),
    ensures
        recolored(recolored(data, mask), mask) == recolored(data, mask),
{
    let once = recolored(data, mask);
    assert forall|i: int| 0 <= i < once.len() implies recolored_byte(once, mask, i)
        == once[i] by {
        let k = i / 4;
        if 4 * k + 4 <= data.len() {
            assert(once[4 * k] == recolored_byte(data, mask, 4 * k));
            assert(once[4 * k + 1] == recolored_byte(data, mask, 4 * k + 1));
            assert(once[4 * k + 2] == recolored_byte(data, mask, 4 * k + 2));
            assert(once[4 * k + 3] == recolored_byte(data, mask, 4 * k + 3));
            assert(pixel_at(once, k) == recolored_pixel(pixel_at(data, k), mask));
        }
    }
    assert(recolored(once, mask) =~= once);
}

} // verus!
