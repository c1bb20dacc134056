use vstd::prelude::*;

verus! {

/// The ways in which processing an image fails. None of them is retried: each is handed to
/// the caller at once, and no partial result is produced.
#[derive(Clone, Copy, PartialEq, Eq, Debug, Structural)]
pub enum PipelineError {
    /// The input image has a width or a height of zero.
    InvalidImage,
    /// The inference engine's output is not a grid of shape `[1, height, width, 1]`.
    ShapeMismatch,
    /// A probability was asked for outside the image.
    OutOfBounds,
    /// The inference engine failed.
    EngineExecution,
}

} // verus!
