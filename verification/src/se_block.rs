//! The squeeze-and-excite (SE) channel-gating block.
//!
//! An SE block computes one scalar per channel from a spatial mean, squeezes
//! it through two 1x1 convolutions and a sigmoid, and multiplies the input by
//! the result.  Besides the plain forward pass it exposes the variant taking
//! a precomputed mean — the only gating path the tiled engine uses, which is
//! what lets a global mean replace the local one.

use vstd::prelude::*;

use crate::errors::{cvt, CuganError};
use crate::grid::{mk_dims, Grid};
use crate::tensor_ops::{bmul_bits, bmul_t, conv2d_forward, conv2d_fwd_bits, conv2d_geom,
    load_conv2d, load_conv2d_no_bias, mean23_bits, mean23_t, relu_bits, relu_t, sigmoid_bits,
    sigmoid_t, tensor_bits, tensor_dims, ConvGeom, WeightSource};

verus! {

pub struct SeBlock {
    pub conv1: candle_nn::Conv2d,
    pub conv2: candle_nn::Conv2d,
    pub in_channels: usize,
    pub mid_channels: usize,
}

/// Configuration of an SE block: channel count, squeeze reduction factor,
/// and whether its convolutions carry a bias.
pub struct SeBlockConfig {
    pub in_channels: usize,
    pub reduction: usize,
    pub bias: bool,
}

impl SeBlockConfig {
    /// The default configuration for `in_channels`: reduction 8, no bias.
    pub fn new(in_channels: usize) -> (r: SeBlockConfig)
        ensures
            r.in_channels == in_channels,
            r.reduction == 8,
            !r.bias,
    {
        SeBlockConfig { in_channels, reduction: 8, bias: false }
    }

    /// Builds the block this configuration describes, loading its weights
    /// from `vb`.
    pub fn init_with(&self, vb: &WeightSource) -> (r: Result<SeBlock, CuganError>)
        ensures
            match r {
                Ok(s) => {
                    &&& self.reduction >= 1 && self.in_channels >= self.reduction
                    &&& s.wf()
                    &&& s.in_channels == self.in_channels
                    &&& s.mid_channels == self.in_channels / self.reduction
                },
                Err(e) => e matches CuganError::InvalidInput ==> (self.reduction < 1
                    || self.in_channels < self.reduction),
            },
            self.reduction < 1 || self.in_channels < self.reduction ==> r matches Err(
                CuganError::InvalidInput,
            ),
    {
        if self.reduction < 1 || self.in_channels < self.reduction {
            return Err(CuganError::InvalidInput);
        }
        SeBlock::new(vb, self.in_channels, self.reduction, self.bias)
    }
}

impl SeBlock {
    /// The two squeeze convolutions are 1x1, channel count down then back up.
    pub open spec fn wf(self) -> bool {
        &&& self.in_channels >= 1
        &&& self.mid_channels >= 1
        &&& conv2d_geom(self.conv1) == (ConvGeom {
            in_c: self.in_channels as nat,
            out_c: self.mid_channels as nat,
            k: 1,
            pad: 0,
            stride: 1,
            dilation: 1,
            groups: 1,
        })
        &&& conv2d_geom(self.conv2) == (ConvGeom {
            in_c: self.mid_channels as nat,
            out_c: self.in_channels as nat,
            k: 1,
            pad: 0,
            stride: 1,
            dilation: 1,
            groups: 1,
        })
    }

    /// Contents after gating `x` by the channel weights computed from the
    /// (possibly global) mean `m`.
    pub open spec fn gate_bits(self, x: Grid, m: Grid) -> Grid {
        bmul_bits(
            x,
            sigmoid_bits(conv2d_fwd_bits(self.conv2, relu_bits(conv2d_fwd_bits(self.conv1, m)))),
        )
    }

    /// Contents of the plain forward pass: gating by the input's own spatial
    /// mean.
    pub open spec fn se_bits(self, x: Grid) -> Grid {
        self.gate_bits(x, mean23_bits(x))
    }

    /// Loads an SE block for `in_channels` channels, squeezing to
    /// `in_channels / reduction`.
    #[verifier::spinoff_prover]
    pub fn new(vb: &WeightSource, in_channels: usize, reduction: usize, bias: bool) -> (r: Result<
        SeBlock,
        CuganError,
    >)
        requires
            reduction >= 1,
            in_channels >= reduction,
        ensures
            match r {
                Ok(s) => s.wf() && s.in_channels == in_channels && s.mid_channels == in_channels
                    / reduction,
                Err(e) => e matches CuganError::Compute(_),
            },
    {
        let mid = in_channels / reduction;
        assert(mid >= 1) by {
            vstd::arithmetic::div_mod::lemma_div_non_zero(in_channels as int, reduction as int);
        }
        let conv1 = if bias {
            cvt(load_conv2d(vb, "conv1", in_channels, mid, 1, 0, 1))?
        } else {
            cvt(load_conv2d_no_bias(vb, "conv1", in_channels, mid, 1, 0, 1))?
        };
        let conv2 = if bias {
            cvt(load_conv2d(vb, "conv2", mid, in_channels, 1, 0, 1))?
        } else {
            cvt(load_conv2d_no_bias(vb, "conv2", mid, in_channels, 1, 0, 1))?
        };
        Ok(SeBlock { conv1, conv2, in_channels, mid_channels: mid })
    }

    /// Gates `x` by the channel weights computed from the precomputed mean
    /// `m` of shape (batch, channels, 1, 1).
    pub fn forward_mean(&self, x: &candle_core::Tensor, m: &candle_core::Tensor) -> (r: Result<
        candle_core::Tensor,
        CuganError,
    >)
        requires
            self.wf(),
            tensor_dims(*x).len() == 4,
            tensor_dims(*x)[1] == self.in_channels,
            tensor_dims(*m) == mk_dims(tensor_dims(*x)[0], self.in_channels as nat, 1, 1),
        ensures
            match r {
                Ok(y) => {
                    &&& tensor_dims(y) == tensor_dims(*x)
                    &&& tensor_bits(y) == self.gate_bits(tensor_bits(*x), tensor_bits(*m))
                },
                Err(e) => e matches CuganError::Compute(_),
            },
    {
        let a = cvt(conv2d_forward(&self.conv1, m))?;
        let b = cvt(relu_t(&a))?;
        let c = cvt(conv2d_forward(&self.conv2, &b))?;
        let d = cvt(sigmoid_t(&c))?;
        cvt(bmul_t(x, &d))
    }

    /// The plain forward pass: gates `x` by its own spatial mean.
    pub fn forward(&self, x: &candle_core::Tensor) -> (r: Result<candle_core::Tensor, CuganError>)
        requires
            self.wf(),
            tensor_dims(*x).len() == 4,
            tensor_dims(*x)[1] == self.in_channels,
            tensor_dims(*x)[2] >= 1,
            tensor_dims(*x)[3] >= 1,
        ensures
            match r {
                Ok(y) => {
                    &&& tensor_dims(y) == tensor_dims(*x)
                    &&& tensor_bits(y) == self.se_bits(tensor_bits(*x))
                },
                Err(e) => e matches CuganError::Compute(_),
            },
    {
        let m = cvt(mean23_t(x))?;
        self.forward_mean(x, &m)
    }
}

} // verus!
