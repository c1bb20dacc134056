use crate::bodypix::Segments;
use crate::error::PipelineError;
use crate::grid::{lemma_sample_within, GridModel, InterpolationType};
use crate::probability::{Probability, SCALE};
use crate::raster::{height_of, image_height, image_pixels, image_width, rgb_at, rgb_image, width_of};
use crate::raster::{lemma_row_major, lemma_row_major_bound};
use image::DynamicImage;
use vstd::prelude::*;

verus! {

/// The probability above which a pixel belongs to the foreground: 0.7, in billionths.
pub const THRESHOLD: u32 = 700_000_000;

/// The colour of the pixels that a silhouette or a cutout leaves out.
pub open spec fn black() -> (u8, u8, u8) {
    (0u8, 0u8, 0u8)
}

/// The gray of brightness `level`.
pub open spec fn gray(level: int) -> (u8, u8, u8) {
    (level as u8, level as u8, level as u8)
}

/// The brightness that shows a probability: 255 times the probability, rounded to the
/// nearest whole number, and up where it lies halfway between two.
pub open spec fn shade(probability: int) -> int {
    (255 * probability + SCALE / 2) / (SCALE as int)
}

/// Whether a probability puts a pixel in the foreground.
pub open spec fn is_foreground(probability: int) -> bool {
    probability > THRESHOLD
}

/// The pixels of the visualization of a grid: for every pixel of the image that the grid
/// describes, the gray that shows its probability.
pub open spec fn mask_pixels(grid: GridModel) -> Seq<(u8, u8, u8)> {
    Seq::new(
        grid.orig_width * grid.orig_height,
        |i: int|
            gray(shade(grid.linear_mean(i % (grid.orig_width as int), i / (grid.orig_width as int)))),
    )
}

/// The pixels of an image of the given size with one side of the threshold blacked out:
/// the pixels of the foreground are kept where `foreground` holds, those of the background
/// where it does not.
pub open spec fn masked_pixels(
    grid: GridModel,
    orig: Seq<(u8, u8, u8)>,
    width: int,
    height: int,
    foreground: bool,
) -> Seq<(u8, u8, u8)> {
    Seq::new(
        (width * height) as nat,
        |i: int|
            if is_foreground(grid.linear_mean(i % width, i / width)) == foreground {
                orig[i]
            } else {
                black()
            },
    )
}

/// The pixels of the silhouette: the foreground of the image on black.
pub open spec fn silhouette_pixels(
    grid: GridModel,
    orig: Seq<(u8, u8, u8)>,
    width: int,
    height: int,
) -> Seq<(u8, u8, u8)> {
    masked_pixels(grid, orig, width, height, true)
}

/// The pixels of the cutout: the background of the image, with the foreground in black.
pub open spec fn cutout_pixels(
    grid: GridModel,
    orig: Seq<(u8, u8, u8)>,
    width: int,
    height: int,
) -> Seq<(u8, u8, u8)> {
    masked_pixels(grid, orig, width, height, false)
}

/// Whether the grid has a probability for every pixel of an image of the given size.
pub open spec fn covers(grid: GridModel, width: int, height: int) -> bool {
    width == 0 || height == 0 || (width <= grid.orig_width && height <= grid.orig_height)
}

fn shade_of(probability: Probability) -> (level: u8)
    ensures
        level == shade(probability@ as int),
{
    let parts: u64 = probability.parts() as u64;
    ((255 * parts + 500_000_000) / 1_000_000_000) as u8
}

/// The visualization of a grid: a gray image of the size of the image that the grid
/// describes, as bright at each pixel as the foreground is probable there.
pub fn mask_to_image(mask: &Segments) -> (image: DynamicImage)
    requires
        mask@.orig_width <= u32::MAX,
        mask@.orig_height <= u32::MAX,
    ensures
        image_width(image) == mask@.orig_width,
        image_height(image) == mask@.orig_height,
        image_pixels(image) == mask_pixels(mask@),
{
    let width: usize = mask.orig_width();
    let height: usize = mask.orig_height();
    let ghost expected = mask_pixels(mask@);
    let mut pixels: Vec<(u8, u8, u8)> = Vec::new();
    let mut y: usize = 0;
    while y < height
        invariant
            y <= height,
            width == mask@.orig_width,
            height == mask@.orig_height,
            expected == mask_pixels(mask@),
            pixels@.len() == y * width,
            forall|i: int| 0 <= i < pixels@.len() ==> #[trigger] pixels@[i] == expected[i],
        decreases height - y,
    {
        let mut x: usize = 0;
        while x < width
            invariant
                x <= width,
                y < height,
                width == mask@.orig_width,
                height == mask@.orig_height,
                expected == mask_pixels(mask@),
                pixels@.len() == y * width + x,
                forall|i: int| 0 <= i < pixels@.len() ==> #[trigger] pixels@[i] == expected[i],
            decreases width - x,
        {
            let level: u8 = shade_of(mask.bilinear(x, y));
            proof {
                lemma_row_major(width as int, x as int, y as int);
                lemma_row_major_bound(width as int, height as int, x as int, y as int);
            }
            pixels.push((level, level, level));
            x = x + 1;
        }
        proof {
            assert((y + 1) * width == y * width + width) by (nonlinear_arith);
        }
        y = y + 1;
    }
    proof {
        assert(height * width == width * height) by (nonlinear_arith);
        assert(pixels@ =~= expected);
    }
    rgb_image(width as u32, height as u32, &pixels)
}

/// The silhouette of an image: its pixels where the foreground has a probability above
/// 0.7, and black elsewhere.
pub fn create_silhouette(mask: &Segments, orig: &DynamicImage) -> (r: Result<
    DynamicImage,
    PipelineError,
>)
    ensures
        match r {
            Ok(image) => {
                &&& covers(mask@, image_width(*orig) as int, image_height(*orig) as int)
                &&& image_width(image) == image_width(*orig)
                &&& image_height(image) == image_height(*orig)
                &&& image_pixels(image) == silhouette_pixels(
                    mask@,
                    image_pixels(*orig),
                    image_width(*orig) as int,
                    image_height(*orig) as int,
                )
            },
            Err(e) => !covers(mask@, image_width(*orig) as int, image_height(*orig) as int) && e
                == PipelineError::OutOfBounds,
        },
{
    composite(mask, orig, true)
}

/// The cutout of an image: its pixels where the foreground has a probability of 0.7 or
/// less, and black elsewhere.
pub fn create_cutout(mask: &Segments, orig: &DynamicImage) -> (r: Result<
    DynamicImage,
    PipelineError,
>)
    ensures
        match r {
            Ok(image) => {
                &&& covers(mask@, image_width(*orig) as int, image_height(*orig) as int)
                &&& image_width(image) == image_width(*orig)
                &&& image_height(image) == image_height(*orig)
                &&& image_pixels(image) == cutout_pixels(
                    mask@,
                    image_pixels(*orig),
                    image_width(*orig) as int,
                    image_height(*orig) as int,
                )
            },
            Err(e) => !covers(mask@, image_width(*orig) as int, image_height(*orig) as int) && e
                == PipelineError::OutOfBounds,
        },
{
    composite(mask, orig, false)
}

fn composite(mask: &Segments, orig: &DynamicImage, foreground: bool) -> (r: Result<
    DynamicImage,
    PipelineError,
>)
    ensures
        match r {
            Ok(image) => {
                &&& covers(mask@, image_width(*orig) as int, image_height(*orig) as int)
                &&& image_width(image) == image_width(*orig)
                &&& image_height(image) == image_height(*orig)
                &&& image_pixels(image) == masked_pixels(
                    mask@,
                    image_pixels(*orig),
                    image_width(*orig) as int,
                    image_height(*orig) as int,
                    foreground,
                )
            },
            Err(e) => !covers(mask@, image_width(*orig) as int, image_height(*orig) as int) && e
                == PipelineError::OutOfBounds,
        },
{
    let width: u32 = width_of(orig);
    let height: u32 = height_of(orig);
    if width > 0 && height > 0 && (width as usize > mask.orig_width() || height as usize
        > mask.orig_height()) {
        return Err(PipelineError::OutOfBounds);
    }
    let ghost source = image_pixels(*orig);
    let ghost expected = masked_pixels(mask@, source, width as int, height as int, foreground);
    let mut pixels: Vec<(u8, u8, u8)> = Vec::new();
    let mut y: u32 = 0;
    while y < height
        invariant
            y <= height,
            width == image_width(*orig),
            height == image_height(*orig),
            source == image_pixels(*orig),
            expected == masked_pixels(mask@, source, width as int, height as int, foreground),
            pixels@.len() == y * width,
            forall|i: int| 0 <= i < pixels@.len() ==> #[trigger] pixels@[i] == expected[i],
        decreases height - y,
    {
        let mut x: u32 = 0;
        while x < width
            invariant
                x <= width,
                y < height,
                width == image_width(*orig),
                height == image_height(*orig),
                source == image_pixels(*orig),
                expected == masked_pixels(
                    mask@,
                    source,
                    width as int,
                    height as int,
                    foreground,
                ),
                pixels@.len() == y * width + x,
                forall|i: int| 0 <= i < pixels@.len() ==> #[trigger] pixels@[i] == expected[i],
            decreases width - x,
        {
            let probability: Probability = mask.bilinear(x as usize, y as usize);
            proof {
                lemma_row_major(width as int, x as int, y as int);
                lemma_row_major_bound(width as int, height as int, x as int, y as int);
            }
            let pixel: (u8, u8, u8) = if (probability.parts() > THRESHOLD) == foreground {
                rgb_at(orig, x, y)
            } else {
                (0, 0, 0)
            };
            pixels.push(pixel);
            x = x + 1;
        }
        proof {
            assert((y + 1) * width == y * width + width) by (nonlinear_arith);
        }
        y = y + 1;
    }
    proof {
        assert(height * width == width * height) by (nonlinear_arith);
        assert(pixels@ =~= expected);
    }
    Ok(rgb_image(width, height, &pixels))
}

/// The silhouette and the cutout part every image between them. At each pixel one of the
/// two shows the pixel of the image and the other is black: the silhouette shows it where
/// the probability is above 0.7, the cutout where it is 0.7 or less. So wherever the image
/// itself is not black, exactly one of the two is black.
pub proof fn lemma_silhouette_cutout_partition(
    grid: GridModel,
    orig: Seq<(u8, u8, u8)>,
    width: int,
    height: int,
    i: int,
)
    requires
        0 <= i < width * height,
    ensures
        ({
            let silhouette = silhouette_pixels(grid, orig, width, height)[i];
            let cutout = cutout_pixels(grid, orig, width, height)[i];
            let probability = grid.linear_mean(i % width, i / width);
            &&& probability > THRESHOLD ==> silhouette == orig[i] && cutout == black()
            &&& probability <= THRESHOLD ==> silhouette == black() && cutout == orig[i]
            &&& orig[i] != black() ==> (silhouette == black()) != (cutout == black())
        }),
{
}

/// Where every value of the grid is above 0.7, the silhouette is the image itself and the
/// cutout is black all over.
pub proof fn lemma_foreground_everywhere(
    grid: GridModel,
    orig: Seq<(u8, u8, u8)>,
    width: int,
    height: int,
)
    requires
        grid.valid(),
        0 <= width,
        0 <= height,
        orig.len() == width * height,
        forall|i: int| 0 <= i < grid.values.len() ==> #[trigger] grid.values[i] > THRESHOLD,
    ensures
        silhouette_pixels(grid, orig, width, height) == orig,
        cutout_pixels(grid, orig, width, height) == Seq::new(orig.len(), |i: int| black()),
{
    assert forall|i: int| 0 <= i < width * height implies is_foreground(
        #[trigger] grid.linear_mean(i % width, i / width),
    ) by {
        lemma_pixel_of_entry(width, height, i);
        lemma_sample_within(
            grid,
            i % width,
            i / width,
            InterpolationType::LinearMean,
            THRESHOLD + 1,
            SCALE as int,
        );
    }
    assert(silhouette_pixels(grid, orig, width, height) =~= orig);
    assert(cutout_pixels(grid, orig, width, height) =~= Seq::new(orig.len(), |i: int| black()));
}

/// Where no value of the grid is above 0.7, the silhouette is black all over and the
/// cutout is the image itself.
pub proof fn lemma_background_everywhere(
    grid: GridModel,
    orig: Seq<(u8, u8, u8)>,
    width: int,
    height: int,
)
    requires
        grid.valid(),
        0 <= width,
        0 <= height,
        orig.len() == width * height,
        forall|i: int| 0 <= i < grid.values.len() ==> #[trigger] grid.values[i] <= THRESHOLD,
    ensures
        silhouette_pixels(grid, orig, width, height) == Seq::new(orig.len(), |i: int| black()),
        cutout_pixels(grid, orig, width, height) == orig,
{
    assert forall|i: int| 0 <= i < width * height implies !is_foreground(
        #[trigger] grid.linear_mean(i % width, i / width),
    ) by {
        lemma_pixel_of_entry(width, height, i);
        lemma_sample_within(
            grid,
            i % width,
            i / width,
            InterpolationType::LinearMean,
            0,
            THRESHOLD as int,
        );
    }
    assert(cutout_pixels(grid, orig, width, height) =~= orig);
    assert(silhouette_pixels(grid, orig, width, height) =~= Seq::new(
        orig.len(),
        |i: int| black(),
    ));
}

/// The visualization of a grid that holds one probability everywhere is one gray all over:
/// the gray that shows that probability.
pub proof fn lemma_uniform_mask(grid: GridModel, probability: int)
    requires
        grid.valid(),
        forall|i: int| 0 <= i < grid.values.len() ==> #[trigger] grid.values[i] == probability,
    ensures
        mask_pixels(grid) == Seq::new(
            grid.orig_width * grid.orig_height,
            |i: int| gray(shade(probability)),
        ),
{
    let width = grid.orig_width as int;
    let height = grid.orig_height as int;
    assert forall|i: int| 0 <= i < width * height implies #[trigger] grid.linear_mean(
        i % width,
        i / width,
    ) == probability by {
        lemma_pixel_of_entry(width, height, i);
        lemma_sample_within(
            grid,
            i % width,
            i / width,
            InterpolationType::LinearMean,
            probability,
            probability,
        );
    }
    assert(mask_pixels(grid) =~= Seq::new(
        grid.orig_width * grid.orig_height,
        |i: int| gray(shade(probability)),
    ));
}

/// The rounding of the brightness: a probability of one half shows as 128, halfway between
/// 127 and 128 and so rounded up; zero shows as 0 and one as 255.
pub proof fn lemma_shade_of_half()
    ensures
        shade((SCALE / 2) as int) == 128,
        shade(0) == 0,
        shade(SCALE as int) == 255,
{
}

proof fn lemma_pixel_of_entry(width: int, height: int, i: int)
    by (nonlinear_arith)
    requires
        0 <= i < width * height,
        0 <= width,
        0 <= height,
    ensures
        0 <= i % width,
        0 <= i / width,
{
}

} // verus!
