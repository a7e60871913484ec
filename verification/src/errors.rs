use vstd::prelude::*;

verus! {

/// Errors of the inference library.  Configuration problems are detected
/// before any tile is processed; `Compute` carries a failure reported by the
/// tensor backend.
#[derive(Debug)]
pub enum CuganError {
    /// The configured tile size is zero, too large for coordinate arithmetic,
    /// or misaligned: not even at 2x, not a multiple of 4 at 3x.
    InvalidTileSize,
    /// A stage that the reconciliation protocol gates is missing its SE block.
    MissingSeBlock,
    /// The input tensor is empty or its extents are too large for coordinate
    /// arithmetic.
    InvalidInput,
    /// The input tensor does not have the expected rank or channel count, or
    /// an extent does not meet a stage's minimum.
    ShapeMismatch,
    /// The tensor backend reported a failure.
    Compute(candle_core::Error),
}

/// Wraps a backend failure as a library error, keeping the value on success.
pub(crate) fn cvt<T>(r: Result<T, candle_core::Error>) -> (res: Result<T, CuganError>)
    ensures
        match r {
            Ok(v) => res matches Ok(w) && w == v,
            Err(_) => res matches Err(e) && e matches CuganError::Compute(_),
        },
{
    match r {
        Ok(v) => Ok(v),
        Err(e) => Err(CuganError::Compute(e)),
    }
}

impl CuganError {
    /// A short description, for callers that need to report the failure.
    pub fn describe(&self) -> String {
        match self {
            CuganError::InvalidTileSize => "tile_size must be a positive even integer (a multiple of 4 at 3x)".to_string(),
            CuganError::MissingSeBlock => "a gated stage is missing its SE block".to_string(),
            CuganError::InvalidInput => "input tensor is empty or too large".to_string(),
            CuganError::ShapeMismatch => "input tensor has an unexpected shape".to_string(),
            CuganError::Compute(_) => "tensor backend failure".to_string(),
        }
    }
}

} // verus!
