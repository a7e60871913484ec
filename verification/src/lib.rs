//! Two-stage super-resolution inference with a verified tiled engine.
//!
//! The engine upscales images by 2x or 3x through a coarse stage and a
//! refinement stage, each with squeeze-and-excite (SE) channel gates that
//! need whole-image spatial means.  The tiled engine processes bounded
//! windows in five passes, reconciling each gate's global mean from the
//! tiles' local means, and stitches the finished regions together.  Tensor
//! arithmetic is delegated to the backend behind a small trusted boundary;
//! everything that decides — tile geometry, padding, shape flow through the
//! stages, the reconciliation sweep, stitching, and the configuration rules —
//! is verified.

pub mod engine;
pub mod engine3;
pub mod errors;
pub mod grid;
pub mod pad;
pub mod se_block;
pub mod tensor_ops;
pub mod tiling;
pub mod unet1;
pub mod unet2;
pub mod unet_conv;
