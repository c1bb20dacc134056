use crate::error::PipelineError;
use crate::grid::{lemma_cell_in_grid, lemma_neighbours_in_grid, lemma_weighted_mean_bounds};
use crate::grid::{min_of, weighted_mean, GridModel, InterpolationType};
use crate::probability::{Probability, SCALE};
use crate::raster::{height_of, image_height, image_pixels, image_width, rgb_at, width_of};
use crate::raster::{lemma_row_major, lemma_row_major_bound};
use image::DynamicImage;
use vstd::prelude::*;

verus! {

/// The two architecture families of the pretrained networks.
#[derive(Clone, Copy, PartialEq, Eq, Debug, Structural)]
pub enum ModelType {
    MobileNet,
    ResNet,
}

/// One entry of the model catalog: a pretrained variant of the network.
pub struct ModelDescriptor {
    pub display_name: Seq<char>,
    pub weights_file: Seq<char>,
    pub stride: nat,
    pub architecture: ModelType,
}

/// The catalog of pretrained variants, in the order in which they are offered.
pub open spec fn catalog() -> Seq<ModelDescriptor> {
    seq![
        ModelDescriptor {
            display_name: "MobileNet 0.50 stride 8"@,
            weights_file: "bodypix_mobilenet_float_050-stride8.pb"@,
            stride: 8,
            architecture: ModelType::MobileNet,
        },
        ModelDescriptor {
            display_name: "MobileNet 0.50 stride 16"@,
            weights_file: "bodypix_mobilenet_float_050-stride8.pb"@,
            stride: 16,
            architecture: ModelType::MobileNet,
        },
        ModelDescriptor {
            display_name: "MobileNet 0.75 stride 8"@,
            weights_file: "bodypix_mobilenet_float_075-stride8.pb"@,
            stride: 8,
            architecture: ModelType::MobileNet,
        },
        ModelDescriptor {
            display_name: "MobileNet 0.75 stride 16"@,
            weights_file: "bodypix_mobilenet_float_075-stride8.pb"@,
            stride: 16,
            architecture: ModelType::MobileNet,
        },
        ModelDescriptor {
            display_name: "MobileNet 1.00 stride 8"@,
            weights_file: "bodypix_mobilenet_float_100-stride8.pb"@,
            stride: 8,
            architecture: ModelType::MobileNet,
        },
        ModelDescriptor {
            display_name: "MobileNet 1.00 stride 16"@,
            weights_file: "bodypix_mobilenet_float_100-stride8.pb"@,
            stride: 16,
            architecture: ModelType::MobileNet,
        },
        ModelDescriptor {
            display_name: "ResNet 0.50 stride 16"@,
            weights_file: "bodypix_resnet50_float-stride16.pb"@,
            stride: 16,
            architecture: ModelType::ResNet,
        },
        ModelDescriptor {
            display_name: "ResNet 0.50 stride 32"@,
            weights_file: "bodypix_resnet50_float-stride32.pb"@,
            stride: 32,
            architecture: ModelType::ResNet,
        },
    ]
}

/// The input of the inference engine as whole numbers: entry `i` stands for the fraction
/// `values[i] / divisor`. The entries run row by row over the `width` columns and `height`
/// rows of the tensor, with the red, green and blue entry of each pixel side by side.
#[derive(Clone, Debug)]
pub struct NormalizedTensor {
    pub height: u64,
    pub width: u64,
    pub divisor: u32,
    pub values: Vec<i32>,
}

/// The mathematical content of a [`NormalizedTensor`].
pub struct TensorModel {
    pub height: nat,
    pub width: nat,
    pub divisor: nat,
    pub values: Seq<int>,
}

impl View for NormalizedTensor {
    type V = TensorModel;

    open spec fn view(&self) -> TensorModel {
        TensorModel {
            height: self.height as nat,
            width: self.width as nat,
            divisor: self.divisor as nat,
            values: self.values@.map_values(|v: i32| v as int),
        }
    }
}

/// The number that the entries of a normalized tensor are fractions of.
pub open spec fn divisor_of(model_type: ModelType) -> nat {
    match model_type {
        ModelType::MobileNet => 255,
        ModelType::ResNet => 100,
    }
}

/// The mean of a colour channel over the images that the ResNet networks were trained on,
/// in hundredths: 123.15 for red, 115.90 for green and 103.06 for blue.
pub open spec fn channel_mean(channel: int) -> int {
    if channel == 0 {
        12315
    } else if channel == 1 {
        11590
    } else {
        10306
    }
}

/// The normalized value of a colour channel, as the numerator of a fraction of
/// `divisor_of(model_type)`: `value / 127.5 - 1` for MobileNet, and `value` less the mean
/// of the channel for ResNet.
pub open spec fn normalized(model_type: ModelType, channel: int, value: int) -> int {
    match model_type {
        ModelType::MobileNet => 2 * value - 255,
        ModelType::ResNet => 100 * value - channel_mean(channel),
    }
}

/// The red, green or blue channel of a pixel, by its number.
pub open spec fn channel_of(pixel: (u8, u8, u8), channel: int) -> int {
    if channel == 0 {
        pixel.0 as int
    } else if channel == 1 {
        pixel.1 as int
    } else {
        pixel.2 as int
    }
}

/// The place, in an image of the given size, of the pixel that the tensor samples at
/// column `x` of row `y`: coordinates past the image fall back on its last column and row.
pub open spec fn source_index(width: int, height: int, x: int, y: int) -> int {
    min_of(y, height - 1) * width + min_of(x, width - 1)
}

/// The normalized tensor of an image: one column and one row larger than the image, each
/// entry the normalized channel of the pixel that it samples.
pub open spec fn normalized_tensor(
    pixels: Seq<(u8, u8, u8)>,
    width: int,
    height: int,
    model_type: ModelType,
) -> TensorModel {
    TensorModel {
        height: (height + 1) as nat,
        width: (width + 1) as nat,
        divisor: divisor_of(model_type),
        values: Seq::new(
            (3 * (width + 1) * (height + 1)) as nat,
            |i: int|
                normalized(
                    model_type,
                    i % 3,
                    channel_of(
                        pixels[source_index(
                            width,
                            height,
                            (i / 3) % (width + 1),
                            (i / 3) / (width + 1),
                        )],
                        i % 3,
                    ),
                ),
        ),
    }
}

/// The layout of the normalized tensor: the entry of channel `c` at column `x` of row `y`
/// is entry `3 * (y * (width + 1) + x) + c`, and it holds the normalized channel of the
/// pixel sampled there.
pub proof fn lemma_normalized_entry(
    pixels: Seq<(u8, u8, u8)>,
    width: int,
    height: int,
    model_type: ModelType,
    x: int,
    y: int,
    c: int,
)
    requires
        0 <= x <= width,
        0 <= y <= height,
        0 <= c < 3,
    ensures
        ({
            let i = 3 * (y * (width + 1) + x) + c;
            let tensor = normalized_tensor(pixels, width, height, model_type);
            &&& 0 <= i < tensor.values.len()
            &&& tensor.values[i] == normalized(
                model_type,
                c,
                channel_of(pixels[source_index(width, height, x, y)], c),
            )
        }),
{
    let columns = width + 1;
    let rows = height + 1;
    let place = y * columns + x;
    lemma_row_major(columns, x, y);
    lemma_row_major_bound(columns, rows, x, y);
    lemma_row_major(3, c, place);
    assert(3 * place + c == place * 3 + c);
    assert(3 * columns * rows == 3 * (columns * rows)) by (nonlinear_arith);
}

fn normalize_channel(model_type: ModelType, channel: u8, value: u8) -> (r: i32)
    requires
        channel < 3,
    ensures
        r == normalized(model_type, channel as int, value as int),
{
    match model_type {
        ModelType::MobileNet => 2 * (value as i32) - 255,
        ModelType::ResNet => {
            let mean: i32 = if channel == 0 {
                12315
            } else if channel == 1 {
                11590
            } else {
                10306
            };
            100 * (value as i32) - mean
        },
    }
}

/// Turns an image into the input of the inference engine. The tensor is one column and one
/// row larger than the image; what lies past the image repeats its last column and row.
pub fn normalize(image: &DynamicImage, model_type: ModelType) -> (r: Result<
    NormalizedTensor,
    PipelineError,
>)
    ensures
        match r {
            Ok(tensor) => image_width(*image) > 0 && image_height(*image) > 0 && tensor@
                == normalized_tensor(
                image_pixels(*image),
                image_width(*image) as int,
                image_height(*image) as int,
                model_type,
            ),
            Err(e) => (image_width(*image) == 0 || image_height(*image) == 0) && e
                == PipelineError::InvalidImage,
        },
{
    let orig_width: u32 = width_of(image);
    let orig_height: u32 = height_of(image);
    if orig_width == 0 || orig_height == 0 {
        return Err(PipelineError::InvalidImage);
    }
    let target_width: u64 = orig_width as u64 + 1;
    let target_height: u64 = orig_height as u64 + 1;
    let max_x: u32 = orig_width - 1;
    let max_y: u32 = orig_height - 1;
    let ghost pixels = image_pixels(*image);
    let ghost expected = normalized_tensor(
        pixels,
        orig_width as int,
        orig_height as int,
        model_type,
    ).values;
    let mut values: Vec<i32> = Vec::new();
    let mut y: u64 = 0;
    while y < target_height
        invariant
            y <= target_height,
            target_width == orig_width + 1,
            target_height == orig_height + 1,
            max_x == orig_width - 1,
            max_y == orig_height - 1,
            orig_width == image_width(*image),
            orig_height == image_height(*image),
            pixels == image_pixels(*image),
            expected == normalized_tensor(
                pixels,
                orig_width as int,
                orig_height as int,
                model_type,
            ).values,
            values@.len() == 3 * (y * target_width),
            forall|i: int| 0 <= i < values@.len() ==> #[trigger] values@[i] == expected[i],
        decreases target_height - y,
    {
        let source_y: u32 = if y < orig_height as u64 {
            y as u32
        } else {
            max_y
        };
        let mut x: u64 = 0;
        while x < target_width
            invariant
                x <= target_width,
                y < target_height,
                target_width == orig_width + 1,
                target_height == orig_height + 1,
                max_x == orig_width - 1,
                source_y == min_of(y as int, orig_height - 1),
                orig_width == image_width(*image),
                orig_height == image_height(*image),
                pixels == image_pixels(*image),
                expected == normalized_tensor(
                    pixels,
                    orig_width as int,
                    orig_height as int,
                    model_type,
                ).values,
                values@.len() == 3 * (y * target_width + x),
                forall|i: int| 0 <= i < values@.len() ==> #[trigger] values@[i] == expected[i],
            decreases target_width - x,
        {
            let source_x: u32 = if x < orig_width as u64 {
                x as u32
            } else {
                max_x
            };
            let pixel = rgb_at(image, source_x, source_y);
            proof {
                let w = orig_width as int;
                let h = orig_height as int;
                lemma_normalized_entry(pixels, w, h, model_type, x as int, y as int, 0);
                lemma_normalized_entry(pixels, w, h, model_type, x as int, y as int, 1);
                lemma_normalized_entry(pixels, w, h, model_type, x as int, y as int, 2);
            }
            values.push(normalize_channel(model_type, 0, pixel.0));
            values.push(normalize_channel(model_type, 1, pixel.1));
            values.push(normalize_channel(model_type, 2, pixel.2));
            x = x + 1;
        }
        proof {
            assert((y + 1) * target_width == y * target_width + target_width)
                by (nonlinear_arith);
        }
        y = y + 1;
    }
    let tensor = NormalizedTensor {
        height: target_height,
        width: target_width,
        divisor: match model_type {
            ModelType::MobileNet => 255,
            ModelType::ResNet => 100,
        },
        values,
    };
    proof {
        assert(3 * (target_height * target_width) == 3 * (orig_width + 1) * (orig_height + 1))
            by (nonlinear_arith)
            requires
                target_width == orig_width + 1,
                target_height == orig_height + 1,
        ;
        assert(tensor@.values =~= expected);
    }
    Ok(tensor)
}

/// A selected model: the stride and the architecture family that the pipeline needs of it.
#[derive(Clone, Copy, Debug)]
pub struct BodyPix {
    stride: u32,
    model_type: ModelType,
}

impl BodyPix {
    /// A model has a positive stride.
    #[verifier::type_invariant]
    pub open spec fn wf(&self) -> bool {
        self.spec_stride() > 0
    }

    /// The stride of the model.
    pub closed spec fn spec_stride(&self) -> nat {
        self.stride as nat
    }

    /// The architecture family of the model.
    pub closed spec fn spec_model_type(&self) -> ModelType {
        self.model_type
    }

    /// The catalog as four parallel lists: display names, weight files, strides and
    /// architecture families.
    pub fn models() -> (r: (Vec<&'static str>, Vec<&'static str>, Vec<u32>, Vec<ModelType>))
        ensures
            r.0@.len() == catalog().len(),
            r.1@.len() == catalog().len(),
            r.2@.len() == catalog().len(),
            r.3@.len() == catalog().len(),
            forall|i: int|
                0 <= i < catalog().len() ==> (#[trigger] r.0@[i])@ == catalog()[i].display_name,
            forall|i: int|
                0 <= i < catalog().len() ==> (#[trigger] r.1@[i])@ == catalog()[i].weights_file,
            forall|i: int| 0 <= i < catalog().len() ==> #[trigger] r.2@[i] == catalog()[i].stride,
            forall|i: int|
                0 <= i < catalog().len() ==> #[trigger] r.3@[i] == catalog()[i].architecture,
    {
        (
            vec![
                "MobileNet 0.50 stride 8",
                "MobileNet 0.50 stride 16",
                "MobileNet 0.75 stride 8",
                "MobileNet 0.75 stride 16",
                "MobileNet 1.00 stride 8",
                "MobileNet 1.00 stride 16",
                "ResNet 0.50 stride 16",
                "ResNet 0.50 stride 32",
            ],
            vec![
                "bodypix_mobilenet_float_050-stride8.pb",
                "bodypix_mobilenet_float_050-stride8.pb",
                "bodypix_mobilenet_float_075-stride8.pb",
                "bodypix_mobilenet_float_075-stride8.pb",
                "bodypix_mobilenet_float_100-stride8.pb",
                "bodypix_mobilenet_float_100-stride8.pb",
                "bodypix_resnet50_float-stride16.pb",
                "bodypix_resnet50_float-stride32.pb",
            ],
            vec![8, 16, 8, 16, 8, 16, 16, 32],
            vec![
                ModelType::MobileNet,
                ModelType::MobileNet,
                ModelType::MobileNet,
                ModelType::MobileNet,
                ModelType::MobileNet,
                ModelType::MobileNet,
                ModelType::ResNet,
                ModelType::ResNet,
            ],
        )
    }

    /// The descriptor of a model with the given stride and architecture family.
    pub fn from_model(stride: u32, model_type: ModelType) -> (r: BodyPix)
        requires
            stride > 0,
        ensures
            r.spec_stride() == stride,
            r.spec_model_type() == model_type,
    {
        BodyPix { stride, model_type }
    }

    /// Processes one image: normalizes it, hands the tensor to the inference engine, and
    /// reads the grid off what the engine returns. The engine is called once, and only for
    /// an image that is not empty.
    pub fn process_image<E, F>(&self, image: &DynamicImage, engine: F) -> (r: Result<
        Segments,
        PipelineError,
    >) where F: FnOnce(NormalizedTensor) -> Result<ProbabilityTensor, E>
        requires
            forall|tensor: NormalizedTensor|
                tensor@ == normalized_tensor(
                    image_pixels(*image),
                    image_width(*image) as int,
                    image_height(*image) as int,
                    self.spec_model_type(),
                ) ==> call_requires(engine, (tensor,)),
        ensures
            image_width(*image) == 0 || image_height(*image) == 0 ==> r is Err && r->Err_0
                == PipelineError::InvalidImage,
            image_width(*image) > 0 && image_height(*image) > 0 ==> exists|
                tensor: NormalizedTensor,
                output: Result<ProbabilityTensor, E>,
            |
                {
                    &&& tensor@ == normalized_tensor(
                        image_pixels(*image),
                        image_width(*image) as int,
                        image_height(*image) as int,
                        self.spec_model_type(),
                    )
                    &&& call_ensures(engine, (tensor,), output)
                    &&& is_outcome(
                        self.spec_stride(),
                        image_width(*image) as nat,
                        image_height(*image) as nat,
                        output,
                        r,
                    )
                },
    {
        let tensor = match normalize(image, self.model_type) {
            Ok(tensor) => tensor,
            Err(e) => {
                return Err(e);
            },
        };
        let ghost input = tensor;
        let orig_width: u32 = width_of(image);
        let orig_height: u32 = height_of(image);
        let output = engine(tensor);
        let ghost result = output;
        let r = self.read_output(orig_width, orig_height, output);
        proof {
            assert(call_ensures(engine, (input,), result));
        }
        r
    }

    /// Reads the segmentation grid of an image of the given size off what the inference
    /// engine returned for it.
    pub fn read_output<E>(
        &self,
        orig_width: u32,
        orig_height: u32,
        output: Result<ProbabilityTensor, E>,
    ) -> (r: Result<Segments, PipelineError>)
        requires
            orig_width > 0,
            orig_height > 0,
        ensures
            is_outcome(self.spec_stride(), orig_width as nat, orig_height as nat, output, r),
    {
        proof {
            use_type_invariant(self);
        }
        match output {
            Ok(tensor) => Segments::from_tensor(
                self.stride,
                orig_width as usize,
                orig_height as usize,
                &tensor,
            ),
            Err(_) => Err(PipelineError::EngineExecution),
        }
    }

    /// The stride of the model.
    pub fn stride(&self) -> (r: u32)
        ensures
            r == self.spec_stride(),
            r > 0,
    {
        proof {
            use_type_invariant(self);
        }
        self.stride
    }

    /// The architecture family of the model.
    pub fn model_type(&self) -> (r: ModelType)
        ensures
            r == self.spec_model_type(),
    {
        self.model_type
    }
}

/// The output of the inference engine after activation: a tensor of probabilities, its
/// values in row-major order of its shape.
#[derive(Clone, Debug)]
pub struct ProbabilityTensor {
    pub shape: Vec<u64>,
    pub values: Vec<Probability>,
}

impl ProbabilityTensor {
    /// The shape is `[1, height, width, 1]` with a positive height and width, and there is
    /// one value for each cell.
    pub open spec fn is_grid(&self) -> bool {
        &&& self.shape@.len() == 4
        &&& self.shape@[0] == 1
        &&& self.shape@[3] == 1
        &&& self.shape@[1] > 0
        &&& self.shape@[2] > 0
        &&& self.values@.len() == self.shape@[1] * self.shape@[2]
    }

    /// The values as counts of billionths.
    pub open spec fn probabilities(&self) -> Seq<nat> {
        self.values@.map_values(|p: Probability| p@)
    }
}

/// Whether `r` is what processing an image of the given size ends in, once the inference
/// engine has returned `output`: the failure of the engine, a shape mismatch, or the grid
/// of the probabilities that the engine returned.
pub open spec fn is_outcome<E>(
    stride: nat,
    orig_width: nat,
    orig_height: nat,
    output: Result<ProbabilityTensor, E>,
    r: Result<Segments, PipelineError>,
) -> bool {
    match output {
        Err(_) => r is Err && r->Err_0 == PipelineError::EngineExecution,
        Ok(tensor) => match r {
            Ok(segments) => tensor.is_grid() && segments.wf() && segments@ == (GridModel {
                orig_width,
                orig_height,
                width: tensor.shape@[2] as nat,
                height: tensor.shape@[1] as nat,
                stride,
                values: tensor.probabilities(),
            }),
            Err(e) => !tensor.is_grid() && e == PipelineError::ShapeMismatch,
        },
    }
}

/// The segmentation grid of one processed image: the probability of the foreground at
/// every cell of the network's coarse grid, with what is needed to map the pixels of the
/// image to it.
#[derive(Debug)]
pub struct Segments {
    orig_width: usize,
    orig_height: usize,
    width: usize,
    height: usize,
    stride: u32,
    values: Vec<Probability>,
}

impl View for Segments {
    type V = GridModel;

    closed spec fn view(&self) -> GridModel {
        GridModel {
            orig_width: self.orig_width as nat,
            orig_height: self.orig_height as nat,
            width: self.width as nat,
            height: self.height as nat,
            stride: self.stride as nat,
            values: self.values@.map_values(|p: Probability| p@),
        }
    }
}

impl Segments {
    /// A grid is valid at all times.
    #[verifier::type_invariant]
    pub open spec fn wf(&self) -> bool {
        self@.valid()
    }

    /// The grid of an activated engine output, for an image of the given size that was
    /// processed at the given stride. The dimensions of the grid are those that the tensor
    /// reports.
    pub fn from_tensor(
        stride: u32,
        orig_width: usize,
        orig_height: usize,
        t: &ProbabilityTensor,
    ) -> (r: Result<Segments, PipelineError>)
        requires
            stride > 0,
            orig_width > 0,
            orig_height > 0,
        ensures
            match r {
                Ok(segments) => t.is_grid() && segments.wf() && segments@ == (GridModel {
                    orig_width: orig_width as nat,
                    orig_height: orig_height as nat,
                    width: t.shape@[2] as nat,
                    height: t.shape@[1] as nat,
                    stride: stride as nat,
                    values: t.probabilities(),
                }),
                Err(e) => !t.is_grid() && e == PipelineError::ShapeMismatch,
            },
    {
        if t.shape.len() != 4 {
            return Err(PipelineError::ShapeMismatch);
        }
        let height: u64 = t.shape[1];
        let width: u64 = t.shape[2];
        if t.shape[0] != 1 || t.shape[3] != 1 || height == 0 || width == 0 {
            return Err(PipelineError::ShapeMismatch);
        }
        assert(height * width <= u128::MAX) by (nonlinear_arith)
            requires
                height <= u64::MAX,
                width <= u64::MAX,
        ;
        let cells: u128 = (height as u128) * (width as u128);
        let len: usize = t.values.len();
        if cells != len as u128 {
            return Err(PipelineError::ShapeMismatch);
        }
        assert(height <= len && width <= len) by (nonlinear_arith)
            requires
                height * width == len,
                height > 0,
                width > 0,
        ;
        let mut values: Vec<Probability> = Vec::new();
        let mut i: usize = 0;
        while i < len
            invariant
                i <= len,
                len == t.values@.len(),
                values@.len() == i,
                forall|j: int| 0 <= j < i ==> #[trigger] values@[j] == t.values@[j],
                forall|j: int| 0 <= j < i ==> (#[trigger] values@[j])@ <= SCALE,
            decreases len - i,
        {
            let p: Probability = t.values[i];
            proof {
                use_type_invariant(&p);
            }
            values.push(p);
            i = i + 1;
        }
        assert(values@ =~= t.values@);
        Ok(
            Segments {
                orig_width,
                orig_height,
                width: width as usize,
                height: height as usize,
                stride,
                values,
            },
        )
    }

    /// The width of the image that the grid describes.
    pub fn orig_width(&self) -> (r: usize)
        ensures
            r == self@.orig_width,
    {
        self.orig_width
    }

    /// The height of the image that the grid describes.
    pub fn orig_height(&self) -> (r: usize)
        ensures
            r == self@.orig_height,
    {
        self.orig_height
    }

    /// The number of columns of the grid.
    pub fn width(&self) -> (r: usize)
        ensures
            r == self@.width,
    {
        self.width
    }

    /// The number of rows of the grid.
    pub fn height(&self) -> (r: usize)
        ensures
            r == self@.height,
    {
        self.height
    }

    /// The stride between the grid and the image.
    pub fn stride(&self) -> (r: u32)
        ensures
            r == self@.stride,
    {
        self.stride
    }

    /// The value of the cell in column `col` of row `row`, if the grid has such a cell.
    pub fn cell(&self, col: usize, row: usize) -> (r: Option<Probability>)
        ensures
            r is Some <==> col < self@.width && row < self@.height,
            r matches Some(p) ==> p@ == self@.cell(col as int, row as int),
    {
        if col < self.width && row < self.height {
            Some(self.value_at(col, row))
        } else {
            None
        }
    }

    fn value_at(&self, col: usize, row: usize) -> (p: Probability)
        requires
            col < self@.width,
            row < self@.height,
        ensures
            p@ == self@.cell(col as int, row as int),
            p@ <= SCALE,
    {
        proof {
            use_type_invariant(self);
            lemma_cell_in_grid(self@, col as int, row as int);
            assert(self@.values.len() == self.values.len());
            assert(0 <= row * self.width) by (nonlinear_arith);
        }
        self.values[row * self.width + col]
    }

    fn column(&self, step: usize) -> (r: usize)
        ensures
            r == self@.column(step as int),
            r < self@.width,
    {
        proof {
            use_type_invariant(self);
        }
        if step < self.width - 1 {
            step
        } else {
            self.width - 1
        }
    }

    fn row(&self, step: usize) -> (r: usize)
        ensures
            r == self@.row(step as int),
            r < self@.height,
    {
        proof {
            use_type_invariant(self);
        }
        if step < self.height - 1 {
            step
        } else {
            self.height - 1
        }
    }

    /// The probability of pixel `(x, y)` without interpolation.
    pub fn no_interpolation(&self, x: usize, y: usize) -> (r: Result<Probability, PipelineError>)
        ensures
            match r {
                Ok(p) => self@.contains(x as int, y as int) && p@ == self@.no_interpolation(
                    x as int,
                    y as int,
                ),
                Err(e) => !self@.contains(x as int, y as int) && e == PipelineError::OutOfBounds,
            },
    {
        if x >= self.orig_width || y >= self.orig_height {
            return Err(PipelineError::OutOfBounds);
        }
        Ok(self.nearest(x, y))
    }

    /// The probability of pixel `(x, y)` by bilinear interpolation.
    pub fn linear_mean(&self, x: usize, y: usize) -> (r: Result<Probability, PipelineError>)
        ensures
            match r {
                Ok(p) => self@.contains(x as int, y as int) && p@ == self@.linear_mean(
                    x as int,
                    y as int,
                ),
                Err(e) => !self@.contains(x as int, y as int) && e == PipelineError::OutOfBounds,
            },
    {
        if x >= self.orig_width || y >= self.orig_height {
            return Err(PipelineError::OutOfBounds);
        }
        Ok(self.bilinear(x, y))
    }

    /// The probability of pixel `(x, y)` under the given policy.
    pub fn sample(&self, x: usize, y: usize, policy: InterpolationType) -> (r: Result<
        Probability,
        PipelineError,
    >)
        ensures
            match r {
                Ok(p) => self@.contains(x as int, y as int) && p@ == self@.sample(
                    x as int,
                    y as int,
                    policy,
                ),
                Err(e) => !self@.contains(x as int, y as int) && e == PipelineError::OutOfBounds,
            },
    {
        match policy {
            InterpolationType::NoInterpolation => self.no_interpolation(x, y),
            InterpolationType::LinearMean => self.linear_mean(x, y),
        }
    }

    pub(crate) fn nearest(&self, x: usize, y: usize) -> (p: Probability)
        requires
            x < usize::MAX,
            y < usize::MAX,
        ensures
            p@ == self@.no_interpolation(x as int, y as int),
    {
        proof {
            use_type_invariant(self);
        }
        let stride: usize = self.stride as usize;
        let col: usize = self.column(1 + x / stride);
        let row: usize = self.row(1 + y / stride);
        self.value_at(col, row)
    }

    pub(crate) fn bilinear(&self, x: usize, y: usize) -> (p: Probability)
        requires
            x < usize::MAX,
            y < usize::MAX,
        ensures
            p@ == self@.linear_mean(x as int, y as int),
    {
        proof {
            use_type_invariant(self);
            lemma_neighbours_in_grid(self@, x as int, y as int);
        }
        let stride: usize = self.stride as usize;
        let step_x: usize = x / stride;
        let step_y: usize = y / stride;
        let x1: usize = self.column(step_x);
        let x2: usize = self.column(step_x + 1);
        let y1: usize = self.row(step_y);
        let y2: usize = self.row(step_y + 1);
        let rem_x: u32 = (x % stride) as u32;
        let rem_y: u32 = (y % stride) as u32;
        let v11: u32 = self.value_at(x1, y1).parts();
        let v12: u32 = self.value_at(x1, y2).parts();
        let v21: u32 = self.value_at(x2, y1).parts();
        let v22: u32 = self.value_at(x2, y2).parts();
        Probability::from_parts(blend(self.stride, rem_x, rem_y, v11, v12, v21, v22))
    }
}

/// The bilinear mean of four probabilities, rounded down to a whole number of parts.
pub fn blend(stride: u32, rem_x: u32, rem_y: u32, v11: u32, v12: u32, v21: u32, v22: u32) -> (r:
    u32)
    requires
        stride > 0,
        rem_x < stride,
        rem_y < stride,
        v11 <= SCALE,
        v12 <= SCALE,
        v21 <= SCALE,
        v22 <= SCALE,
    ensures
        r == weighted_mean(
            stride as int,
            rem_x as int,
            rem_y as int,
            v11 as int,
            v12 as int,
            v21 as int,
            v22 as int,
        ),
        r <= SCALE,
{
    let s: u64 = stride as u64;
    let rx: u64 = rem_x as u64;
    let ry: u64 = rem_y as u64;
    proof {
        let one = SCALE as int;
        lemma_weighted_pair_bounds(s - ry, ry as int, v11 as int, v12 as int, one);
        lemma_weighted_pair_bounds(s - ry, ry as int, v21 as int, v22 as int, one);
    }
    let left: u64 = (s - ry) * (v11 as u64) + ry * (v12 as u64);
    let right: u64 = (s - ry) * (v21 as u64) + ry * (v22 as u64);
    proof {
        let most = s * SCALE;
        lemma_weighted_pair_bounds(s - rx, rx as int, left as int, right as int, most);
        assert(s * most <= 0xFFFF_FFFF * (0xFFFF_FFFF * SCALE)) by (nonlinear_arith)
            requires
                0 <= s <= 0xFFFF_FFFF,
                most == s * SCALE,
        ;
        assert(0 < s * s <= 0xFFFF_FFFF * 0xFFFF_FFFF) by (nonlinear_arith)
            requires
                0 < s <= 0xFFFF_FFFF,
        ;
    }
    let sum: u128 = ((s - rx) as u128) * (left as u128) + (rx as u128) * (right as u128);
    let square: u128 = (s as u128) * (s as u128);
    proof {
        lemma_weighted_mean_bounds(
            s as int,
            rx as int,
            ry as int,
            v11 as int,
            v12 as int,
            v21 as int,
            v22 as int,
            0,
            SCALE as int,
        );
    }
    (sum / square) as u32
}

proof fn lemma_weighted_pair_bounds(a: int, b: int, u: int, v: int, hi: int)
    by (nonlinear_arith)
    requires
        0 <= a,
        0 <= b,
        0 <= u <= hi,
        0 <= v <= hi,
    ensures
        0 <= a * u <= a * hi,
        0 <= b * v <= b * hi,
        a * u + b * v <= (a + b) * hi,
{
}

} // verus!
