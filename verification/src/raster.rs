use image::{DynamicImage, GenericImageView, ImageBuffer, Rgb};
use vstd::arithmetic::div_mod::lemma_fundamental_div_mod_converse_div;
use vstd::arithmetic::div_mod::lemma_fundamental_div_mod_converse_mod;
use vstd::prelude::*;

verus! {

/// The `image` crate's `DynamicImage`, carried through verified code as an opaque value.
#[verifier::external_type_specification]
#[verifier::external_body]
pub struct ExDynamicImage(image::DynamicImage);

/// The width of an image in pixels: what `GenericImageView::width` reports of it.
pub uninterp spec fn image_width(image: DynamicImage) -> u32;

/// The height of an image in pixels: what `GenericImageView::height` reports of it.
pub uninterp spec fn image_height(image: DynamicImage) -> u32;

/// The colours of an image: the red, green and blue channel that
/// `GenericImageView::get_pixel` reports of each pixel, row by row from the top left, so
/// that the pixel in column `x` of row `y` is entry `y * image_width + x`.
pub uninterp spec fn image_pixels(image: DynamicImage) -> Seq<(u8, u8, u8)>;

/// Calls `GenericImageView::width` on a `DynamicImage`. Nothing is proved of the call: the
/// contract gives its result the name `image_width`.
#[verifier::external_body]
pub(crate) fn width_of(image: &DynamicImage) -> (w: u32)
    ensures
        w == image_width(*image),
{
    image.width()
}

/// Calls `GenericImageView::height` on a `DynamicImage`. Nothing is proved of the call: the
/// contract gives its result the name `image_height`.
#[verifier::external_body]
pub(crate) fn height_of(image: &DynamicImage) -> (h: u32)
    ensures
        h == image_height(*image),
{
    image.height()
}

/// Calls `GenericImageView::get_pixel` on a `DynamicImage`, which panics outside the image
/// and inside it returns the pixel as red, green, blue and alpha, and keeps the three
/// colours. Nothing is proved of the call: the contract says that these are the entry of
/// `image_pixels` for that column and row.
#[verifier::external_body]
pub(crate) fn rgb_at(image: &DynamicImage, x: u32, y: u32) -> (p: (u8, u8, u8))
    requires
        x < image_width(*image),
        y < image_height(*image),
    ensures
        p == image_pixels(*image)[y * image_width(*image) + x],
{
    let rgba = image.get_pixel(x, y);
    (rgba.0[0], rgba.0[1], rgba.0[2])
}

/// Calls `ImageBuffer::from_fn`, which makes a buffer of `width` by `height` pixels and sets
/// the pixel of each column and row to what the closure returns for them, and wraps the
/// buffer as `DynamicImage::ImageRgb8`. The closure reads the pixel off `pixels`, which
/// holds one pixel of three bytes for each pixel of the image, so the buffer that
/// `from_fn` allocates is no larger than `pixels` itself. Nothing is proved of the call: the
/// contract says that the image has the given size and the colours of `pixels`.
#[verifier::external_body]
pub(crate) fn rgb_image(width: u32, height: u32, pixels: &Vec<(u8, u8, u8)>) -> (image:
    DynamicImage)
    requires
        pixels@.len() == width * height,
    ensures
        image_width(image) == width,
        image_height(image) == height,
        image_pixels(image) == pixels@,
{
    DynamicImage::ImageRgb8(
        ImageBuffer::from_fn(
            width,
            height,
            |x, y|
                {
                    let p = pixel_at(pixels, width, x, y);
                    Rgb([p.0, p.1, p.2])
                },
        ),
    )
}

/// The pixel at column `x` of row `y` in a row-major buffer of `width` columns.
fn pixel_at(pixels: &Vec<(u8, u8, u8)>, width: u32, x: u32, y: u32) -> (p: (u8, u8, u8))
    requires
        x < width,
        y * width + x < pixels@.len(),
    ensures
        p == pixels@[y * width + x],
{
    proof {
        assert(pixels@.len() == pixels.len());
        assert(0 <= y * width <= y * width + x) by (nonlinear_arith);
    }
    pixels[(y as usize) * (width as usize) + (x as usize)]
}

/// In a row-major layout of `width` columns, the entry of column `x` in row `y` is entry
/// `y * width + x`, and no other column and row share that entry.
pub proof fn lemma_row_major(width: int, x: int, y: int)
    requires
        0 <= x < width,
    ensures
        (y * width + x) / width == y,
        (y * width + x) % width == x,
{
    lemma_fundamental_div_mod_converse_div(y * width + x, width, y, x);
    lemma_fundamental_div_mod_converse_mod(y * width + x, width, y, x);
}

/// The entries of a row-major layout of `width` columns and `height` rows are numbered
/// from zero to below `width * height`.
pub proof fn lemma_row_major_bound(width: int, height: int, x: int, y: int)
    by (nonlinear_arith)
    requires
        0 <= x < width,
        0 <= y < height,
    ensures
        0 <= y * width + x < width * height,
        0 <= y * width,
{
}

} // verus!
