use bodypix::bodypix::{BodyPix, ModelType, NormalizedTensor, ProbabilityTensor, Segments};
use bodypix::error::PipelineError;
use bodypix::image_utils::{create_cutout, create_silhouette, mask_to_image, THRESHOLD};
use bodypix::probability::Probability;
use image::{DynamicImage, GenericImageView, ImageBuffer, Luma, Rgb, Rgba};

fn sigmoid(value: f32) -> f32 {
    1.0 / (1.0 + (-value).exp())
}

fn activated(logit: f32) -> Probability {
    Probability::new((sigmoid(logit) as f64 * 1e9).round() as u32).unwrap()
}

fn uniform_grid(stride: u32, width: usize, height: usize, value: Probability) -> Segments {
    let tensor = ProbabilityTensor { shape: vec![1, 64, 64, 1], values: vec![value; 64 * 64] };
    Segments::from_tensor(stride, width, height, &tensor).unwrap()
}

fn grid_of(stride: u32, width: usize, height: usize, columns: u64, parts: &[u32]) -> Segments {
    let tensor = ProbabilityTensor {
        shape: vec![1, parts.len() as u64 / columns, columns, 1],
        values: parts.iter().map(|p| Probability::new(*p).unwrap()).collect(),
    };
    Segments::from_tensor(stride, width, height, &tensor).unwrap()
}

/// An image without a black pixel, and with no two pixels alike in a row or a column.
fn colourful(width: u32, height: u32) -> DynamicImage {
    DynamicImage::ImageRgb8(ImageBuffer::from_fn(width, height, |x, y| {
        Rgb([(x % 255) as u8 + 1, (y % 255) as u8 + 1, ((x + 2 * y) % 256) as u8])
    }))
}

fn all_black(width: u32, height: u32) -> DynamicImage {
    DynamicImage::ImageRgb8(ImageBuffer::from_pixel(width, height, Rgb([0, 0, 0])))
}

fn rgb_of(image: &DynamicImage, x: u32, y: u32) -> [u8; 3] {
    let pixel = image.get_pixel(x, y);
    [pixel.0[0], pixel.0[1], pixel.0[2]]
}

#[test]
fn threshold_is_seven_tenths() {
    assert_eq!(THRESHOLD, 700_000_000);
}

#[test]
fn a_confident_foreground_keeps_the_whole_image_in_the_silhouette() {
    let grid = uniform_grid(16, 256, 256, activated(10.0));
    let image = colourful(256, 256);
    assert_eq!(create_silhouette(&grid, &image), Ok(image.clone()));
    assert_eq!(create_cutout(&grid, &image), Ok(all_black(256, 256)));
}

#[test]
fn a_confident_background_keeps_the_whole_image_in_the_cutout() {
    let grid = uniform_grid(16, 256, 256, activated(-10.0));
    let image = colourful(256, 256);
    assert_eq!(create_silhouette(&grid, &image), Ok(all_black(256, 256)));
    assert_eq!(create_cutout(&grid, &image), Ok(image.clone()));
}

#[test]
fn the_whole_pipeline_keeps_a_confident_foreground() {
    let model = BodyPix::from_model(16, ModelType::MobileNet);
    let image = colourful(256, 256);
    let grid = model
        .process_image(&image, |tensor: NormalizedTensor| -> Result<ProbabilityTensor, ()> {
            assert_eq!((tensor.width, tensor.height), (257, 257));
            assert_eq!(tensor.values.len(), 257 * 257 * 3);
            Ok(ProbabilityTensor {
                shape: vec![1, 64, 64, 1],
                values: vec![activated(10.0); 64 * 64],
            })
        })
        .unwrap();
    assert_eq!(create_silhouette(&grid, &image), Ok(image.clone()));
    assert_eq!(create_cutout(&grid, &image), Ok(all_black(256, 256)));
}

#[test]
fn activation_of_ten_is_almost_one() {
    assert_eq!(activated(0.0).parts(), 500_000_000);
    assert!((activated(10.0).parts() as i64 - 999_954_600).abs() < 100);
    assert!((activated(-10.0).parts() as i64 - 45_400).abs() < 100);
}

#[test]
fn a_grid_of_one_half_shows_as_gray_128() {
    let grid = uniform_grid(16, 256, 256, Probability::new(500_000_000).unwrap());
    let gray = DynamicImage::ImageRgb8(ImageBuffer::from_pixel(256, 256, Rgb([128, 128, 128])));
    assert_eq!(mask_to_image(&grid), gray);
}

#[test]
fn mask_to_image_rounds_to_the_nearest_brightness() {
    let shades: [(u32, u8); 9] = [
        (0, 0),
        (1_960_784, 0),
        (1_960_785, 1),
        (499_999_999, 127),
        (500_000_000, 128),
        (503_921_568, 128),
        (503_921_569, 129),
        (998_039_215, 254),
        (998_039_216, 255),
    ];
    for (parts, level) in shades {
        let grid = grid_of(4, 2, 2, 1, &[parts]);
        let image = mask_to_image(&grid);
        assert_eq!((image.width(), image.height()), (2, 2));
        assert_eq!(rgb_of(&image, 1, 1), [level, level, level], "for {parts}");
    }
}

#[test]
fn mask_to_image_has_the_size_of_the_image_and_shows_each_pixel() {
    // two columns of cells: probability 0 on the left, 1 on the right
    let grid = grid_of(4, 7, 3, 2, &[0, 1_000_000_000, 0, 1_000_000_000]);
    let image = mask_to_image(&grid);
    assert_eq!((image.width(), image.height()), (7, 3));
    assert!(matches!(image, DynamicImage::ImageRgb8(_)));
    for y in 0..3 {
        // 255 * x / 4, rounded, up to the last column of cells
        assert_eq!(rgb_of(&image, 0, y), [0, 0, 0]);
        assert_eq!(rgb_of(&image, 1, y), [64, 64, 64]);
        assert_eq!(rgb_of(&image, 2, y), [128, 128, 128]);
        assert_eq!(rgb_of(&image, 3, y), [191, 191, 191]);
        assert_eq!(rgb_of(&image, 4, y), [255, 255, 255]);
        assert_eq!(rgb_of(&image, 6, y), [255, 255, 255]);
    }
}

#[test]
fn mask_to_image_does_not_look_at_any_image() {
    let grid = grid_of(2, 4, 4, 2, &[100, 200_000_000, 900_000_000, 1_000_000_000]);
    assert_eq!(mask_to_image(&grid), mask_to_image(&grid));
}

#[test]
fn exactly_seven_tenths_belongs_to_the_cutout() {
    let image = colourful(5, 4);
    let at = grid_of(4, 5, 4, 1, &[THRESHOLD]);
    assert_eq!(create_silhouette(&at, &image), Ok(all_black(5, 4)));
    assert_eq!(create_cutout(&at, &image), Ok(image.clone()));
    let above = grid_of(4, 5, 4, 1, &[THRESHOLD + 1]);
    assert_eq!(create_silhouette(&above, &image), Ok(image.clone()));
    assert_eq!(create_cutout(&above, &image), Ok(all_black(5, 4)));
}

#[test]
fn silhouette_and_cutout_part_the_image_between_them() {
    let cells = [
        0, 650_000_000, 900_000_000,
        700_000_000, 700_000_001, 1_000_000_000,
        300_000_000, 800_000_000, 699_999_999,
    ];
    let grid = grid_of(8, 24, 24, 3, &cells);
    let image = colourful(24, 24);
    let silhouette = create_silhouette(&grid, &image).unwrap();
    let cutout = create_cutout(&grid, &image).unwrap();
    let mut kept = 0;
    for y in 0..24 {
        for x in 0..24 {
            let probability = grid.linear_mean(x as usize, y as usize).unwrap().parts();
            let in_silhouette = rgb_of(&silhouette, x, y);
            let in_cutout = rgb_of(&cutout, x, y);
            assert_ne!(in_silhouette == [0, 0, 0], in_cutout == [0, 0, 0], "at {x}, {y}");
            if probability > THRESHOLD {
                assert_eq!(in_silhouette, rgb_of(&image, x, y));
                kept += 1;
            } else {
                assert_eq!(in_cutout, rgb_of(&image, x, y));
            }
        }
    }
    assert!(0 < kept && kept < 24 * 24);
}

#[test]
fn a_black_pixel_is_black_in_both() {
    let image = all_black(3, 3);
    let grid = grid_of(4, 3, 3, 1, &[900_000_000]);
    assert_eq!(create_silhouette(&grid, &image), Ok(image.clone()));
    assert_eq!(create_cutout(&grid, &image), Ok(image.clone()));
}

#[test]
fn silhouette_has_the_size_and_the_pixels_of_the_image() {
    let image = colourful(7, 3);
    let grid = grid_of(4, 7, 3, 2, &[0, 1_000_000_000, 0, 1_000_000_000]);
    let silhouette = create_silhouette(&grid, &image).unwrap();
    let cutout = create_cutout(&grid, &image).unwrap();
    assert_eq!((silhouette.width(), silhouette.height()), (7, 3));
    assert_eq!((cutout.width(), cutout.height()), (7, 3));
    for y in 0..3 {
        for x in 0..7 {
            // the probability is x / 4 up to the last column of cells: above 0.7 from x = 3
            if x >= 3 {
                assert_eq!(rgb_of(&silhouette, x, y), rgb_of(&image, x, y));
                assert_eq!(rgb_of(&cutout, x, y), [0, 0, 0]);
            } else {
                assert_eq!(rgb_of(&silhouette, x, y), [0, 0, 0]);
                assert_eq!(rgb_of(&cutout, x, y), rgb_of(&image, x, y));
            }
        }
    }
}

#[test]
fn silhouette_of_an_image_with_alpha_keeps_the_colours() {
    let image = DynamicImage::ImageRgba8(ImageBuffer::from_fn(2, 2, |x, y| {
        Rgba([10 + x as u8, 20 + y as u8, 30, 40])
    }));
    let grid = grid_of(4, 2, 2, 1, &[1_000_000_000]);
    let expected = DynamicImage::ImageRgb8(ImageBuffer::from_fn(2, 2, |x, y| {
        Rgb([10 + x as u8, 20 + y as u8, 30])
    }));
    assert_eq!(create_silhouette(&grid, &image), Ok(expected));
}

#[test]
fn cutout_of_a_gray_image_is_gray_in_three_channels() {
    let image = DynamicImage::ImageLuma8(ImageBuffer::from_fn(3, 1, |x, _| Luma([50 * x as u8 + 5])));
    let grid = grid_of(4, 3, 1, 1, &[0]);
    let expected =
        DynamicImage::ImageRgb8(ImageBuffer::from_fn(3, 1, |x, _| Rgb([50 * x as u8 + 5; 3])));
    assert_eq!(create_cutout(&grid, &image), Ok(expected));
}

#[test]
fn an_image_larger_than_the_grid_describes_is_out_of_bounds() {
    let grid = grid_of(4, 6, 5, 1, &[800_000_000]);
    assert_eq!(create_silhouette(&grid, &colourful(7, 5)), Err(PipelineError::OutOfBounds));
    assert_eq!(create_silhouette(&grid, &colourful(6, 6)), Err(PipelineError::OutOfBounds));
    assert_eq!(create_cutout(&grid, &colourful(7, 5)), Err(PipelineError::OutOfBounds));
    assert_eq!(create_cutout(&grid, &colourful(6, 6)), Err(PipelineError::OutOfBounds));
    assert_eq!(create_silhouette(&grid, &colourful(6, 5)), Ok(colourful(6, 5)));
    assert_eq!(create_silhouette(&grid, &colourful(2, 5)), Ok(colourful(2, 5)));
}

#[test]
fn an_image_without_pixels_gives_images_without_pixels() {
    let grid = grid_of(4, 6, 5, 1, &[800_000_000]);
    let empty = DynamicImage::ImageRgb8(ImageBuffer::new(0, 9));
    assert_eq!(create_silhouette(&grid, &empty), Ok(empty.clone()));
    assert_eq!(create_cutout(&grid, &empty), Ok(empty.clone()));
}
