//! Raster images as the `image` crate holds them: scaling to fill a frame and
//! encoding as JPEG, and telling apart the ways in which loading one fails.
//!
//! Nothing in this file is proved. The operations are functions of their
//! arguments alone; each contract names the operation's result and says of
//! it only what the crate's source plainly shows.
//!
//! Decoding is not here. The crate's decoders stop the program on some
//! files, and which files those are cannot be said in a few lines, so a
//! decoded image is taken from the caller, who reads the file anyway.

use vstd::prelude::*;

verus! {

#[verifier::external_type_specification]
#[verifier::external_body]
pub struct ExDynamicImage(image::DynamicImage);

#[verifier::external_type_specification]
#[verifier::external_body]
pub struct ExImageError(image::ImageError);

/// The width and height of an image, in pixels.
pub uninterp spec fn image_size(img: image::DynamicImage) -> (u32, u32);

/// What `DynamicImage::resize_to_fill` with the Catmull-Rom filter makes of
/// `img` for a frame of `width` by `height` pixels: the image scaled, its
/// aspect ratio kept, until it covers the frame, and cropped to it about the
/// centre.
pub uninterp spec fn filled(img: image::DynamicImage, width: u32, height: u32) -> image::DynamicImage;

/// What `DynamicImage::write_to` writes for the output format
/// `JPEG(quality)`: the encoded bytes, or the encoder's complaint.
pub uninterp spec fn jpeg_of(img: image::DynamicImage, quality: u8) -> Result<Seq<u8>, Seq<char>>;

/// The message that an `image::ImageError` displays.
pub uninterp spec fn codec_error_text(e: image::ImageError) -> Seq<char>;

/// Whether an `image::ImageError` is its variant `IoError`: the file could
/// not be read, as opposed to read and not understood.
pub uninterp spec fn is_io_failure(e: image::ImageError) -> bool;

/// The longer side of the image once it is scaled, its aspect ratio kept,
/// until it covers a frame of `width` by `height` pixels: the crate scales
/// the side along which the image sticks out of the frame, and rounds down.
pub open spec fn scaled_side(size: (u32, u32), width: u32, height: u32) -> int {
    if width as int * size.1 as int > size.0 as int * height as int {
        size.1 as int * width as int / size.0 as int
    } else {
        size.0 as int * height as int / size.1 as int
    }
}

/// Tells the variant `IoError` of an `image::ImageError` from the others.
#[verifier::external_body]
pub(crate) fn is_io_error(e: &image::ImageError) -> (r: bool)
    ensures
        r == is_io_failure(*e),
{
    match e {
        image::ImageError::IoError(_) => true,
        image::ImageError::FormatError(_) => false,
        image::ImageError::DimensionError => false,
        image::ImageError::UnsupportedError(_) => false,
        image::ImageError::UnsupportedColor(_) => false,
        image::ImageError::NotEnoughData => false,
        image::ImageError::ImageEnd => false,
        image::ImageError::InsufficientMemory => false,
    }
}

/// `GenericImageView::dimensions` of a `DynamicImage`: its width and height.
#[verifier::external_body]
pub(crate) fn dimensions(img: &image::DynamicImage) -> (r: (u32, u32))
    ensures
        r == image_size(*img),
{
    image::GenericImageView::dimensions(img)
}

/// `DynamicImage::resize_to_fill` with `FilterType::CatmullRom`. The result
/// has the size of the frame. Three things are asked of the arguments:
///
/// - neither side of the image is zero, because the crate divides by both;
/// - the scaled image's longer side can be counted in a `u32`, because
///   beyond that the crate works with a smaller image, which need not cover
///   the frame;
/// - neither side of the frame is longer than 65535 pixels, which keeps the
///   byte count of every buffer that the crate allocates on the way within
///   `usize`, where it would panic otherwise.
#[verifier::external_body]
pub(crate) fn resize_to_fill(img: &image::DynamicImage, width: u32, height: u32) -> (r:
    image::DynamicImage)
    requires
        image_size(*img).0 > 0,
        image_size(*img).1 > 0,
        0 < width <= 65535,
        0 < height <= 65535,
        scaled_side(image_size(*img), width, height) <= u32::MAX,
    ensures
        r == filled(*img, width, height),
        image_size(r) == (width, height),
{
    img.resize_to_fill(width, height, image::FilterType::CatmullRom)
}

/// `DynamicImage::write_to` into a byte vector, with the output format
/// `ImageOutputFormat::JPEG(quality)`. The encoder writes each side of the
/// picture into sixteen bits, so only a picture that has pixels and no
/// side longer than 65535 is given to it.
#[verifier::external_body]
pub(crate) fn encode_jpeg(img: &image::DynamicImage, quality: u8) -> (r: Result<
    Vec<u8>,
    image::ImageError,
>)
    requires
        0 < image_size(*img).0 <= 65535,
        0 < image_size(*img).1 <= 65535,
    ensures
        match r {
            Ok(bytes) => jpeg_of(*img, quality) == Ok::<Seq<u8>, Seq<char>>(bytes@),
            Err(e) => jpeg_of(*img, quality) == Err::<Seq<u8>, Seq<char>>(codec_error_text(e)),
        },
{
    let mut bytes: Vec<u8> = Vec::new();
    match img.write_to(&mut bytes, image::ImageOutputFormat::JPEG(quality)) {
        Ok(()) => Ok(bytes),
        Err(e) => Err(e),
    }
}

/// `ToString::to_string` on an `image::ImageError`: the text it displays.
#[verifier::external_body]
pub(crate) fn codec_message(e: &image::ImageError) -> (r: String)
    ensures
        r@ == codec_error_text(*e),
{
    e.to_string()
}

} // verus!
