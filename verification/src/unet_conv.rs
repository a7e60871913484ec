//! The small convolution block shared by both stages, the leaky activation,
//! and the output head.

use vstd::prelude::*;

use crate::errors::{cvt, CuganError};
use crate::grid::{mk_dims, zero_bits, Grid};
use crate::se_block::SeBlock;
use crate::tensor_ops::{add_bits, add_t, bdiv_bits, bdiv_t, bmin_bits, bmin_t, bmul_bits, bmul_t,
    conv2d_forward, conv2d_fwd_bits, conv2d_geom, convt2d_forward, convt2d_fwd_bits, convt2d_geom,
    int_scalar_like, load_conv2d, relu_bits, relu_t, scalar_bits, tensor_bits, tensor_dims,
    zeros_like4, ConvGeom, WeightSource};

verus! {

broadcast use vstd::arithmetic::div_mod::lemma_div_basics_2;

/// Contents of the 1x1x1x1 slope tensor `num / den`.
pub open spec fn slope_bits(num: int, den: int) -> Grid {
    bdiv_bits(scalar_bits(num), scalar_bits(den))
}

/// Contents after the leaky activation with slope `num / den`: the positive
/// part plus the scaled negative part.
pub open spec fn lrelu_bits(x: Grid, num: int, den: int) -> Grid {
    add_bits(
        relu_bits(x),
        bmul_bits(bmin_bits(x, zero_bits(mk_dims(1, 1, 1, 1))), slope_bits(num, den)),
    )
}

/// The leaky activation with slope `num / den`: `max(x, 0) + min(x, 0) * slope`.
pub fn leaky_relu(x: &candle_core::Tensor, num: i64, den: i64) -> (r: Result<
    candle_core::Tensor,
    CuganError,
>)
    requires
        tensor_dims(*x).len() == 4,
    ensures
        match r {
            Ok(y) => {
                &&& tensor_dims(y) == tensor_dims(*x)
                &&& tensor_bits(y) == lrelu_bits(tensor_bits(*x), num as int, den as int)
            },
            Err(e) => e matches CuganError::Compute(_),
        },
{
    let z = cvt(zeros_like4(x, 1, 1, 1, 1))?;
    let pos = cvt(relu_t(x))?;
    let neg = cvt(bmin_t(x, &z))?;
    let a = cvt(int_scalar_like(x, num))?;
    let b = cvt(int_scalar_like(x, den))?;
    let slope = cvt(bdiv_t(&a, &b))?;
    let scaled = cvt(bmul_t(&neg, &slope))?;
    cvt(add_t(&pos, &scaled))
}

/// Two valid 3x3 convolutions with leaky activations, then an optional SE
/// block.  Each spatial extent shrinks by 4.
pub struct UNetConv {
    pub conv0: candle_nn::Conv2d,
    pub conv2: candle_nn::Conv2d,
    pub seblock: Option<SeBlock>,
    pub in_channels: usize,
    pub mid_channels: usize,
    pub out_channels: usize,
}

/// Configuration of a `UNetConv` block: its three channel counts.
pub struct UNetConvConfig {
    pub in_channels: usize,
    pub mid_channels: usize,
    pub out_channels: usize,
}

impl UNetConvConfig {
    pub fn new(in_channels: usize, mid_channels: usize, out_channels: usize) -> (r: UNetConvConfig)
        ensures
            r.in_channels == in_channels,
            r.mid_channels == mid_channels,
            r.out_channels == out_channels,
    {
        UNetConvConfig { in_channels, mid_channels, out_channels }
    }

    /// Builds the block this configuration describes, with an SE block when
    /// `se` is set, loading weights from `vb`.
    pub fn init_with(&self, vb: &WeightSource, se: bool) -> (r: Result<UNetConv, CuganError>)
        requires
            self.out_channels >= 8,
            self.mid_channels >= 1,
        ensures
            match r {
                Ok(u) => {
                    &&& u.wf()
                    &&& u.in_channels == self.in_channels
                    &&& u.mid_channels == self.mid_channels
                    &&& u.out_channels == self.out_channels
                    &&& (u.seblock is Some <==> se)
                },
                Err(e) => e matches CuganError::Compute(_),
            },
    {
        UNetConv::new(self.in_channels, self.mid_channels, self.out_channels, se, vb)
    }
}

impl UNetConv {
    pub open spec fn wf(self) -> bool {
        &&& self.mid_channels >= 1
        &&& self.out_channels >= 1
        &&& conv2d_geom(self.conv0) == (ConvGeom {
            in_c: self.in_channels as nat,
            out_c: self.mid_channels as nat,
            k: 3,
            pad: 0,
            stride: 1,
            dilation: 1,
            groups: 1,
        })
        &&& conv2d_geom(self.conv2) == (ConvGeom {
            in_c: self.mid_channels as nat,
            out_c: self.out_channels as nat,
            k: 3,
            pad: 0,
            stride: 1,
            dilation: 1,
            groups: 1,
        })
        &&& match self.seblock {
            Some(sb) => sb.wf() && sb.in_channels == self.out_channels,
            None => true,
        }
    }

    /// Contents after the two convolutions and activations, before any SE.
    pub open spec fn convs_bits(self, x: Grid) -> Grid {
        lrelu_bits(
            conv2d_fwd_bits(self.conv2, lrelu_bits(conv2d_fwd_bits(self.conv0, x), 1, 10)),
            1,
            10,
        )
    }

    /// Contents of the full block: convolutions, then the SE block if present.
    pub open spec fn fwd_bits(self, x: Grid) -> Grid {
        match self.seblock {
            Some(sb) => sb.se_bits(self.convs_bits(x)),
            None => self.convs_bits(x),
        }
    }

    /// Loads the block's two convolutions, and an SE block when `se` is set.
    #[verifier::spinoff_prover]
    pub fn new(
        in_channels: usize,
        mid_channels: usize,
        out_channels: usize,
        se: bool,
        vb: &WeightSource,
    ) -> (r: Result<UNetConv, CuganError>)
        requires
            mid_channels >= 1,
            out_channels >= 8,
        ensures
            match r {
                Ok(u) => {
                    &&& u.wf()
                    &&& u.in_channels == in_channels
                    &&& u.mid_channels == mid_channels
                    &&& u.out_channels == out_channels
                    &&& (u.seblock is Some <==> se)
                },
                Err(e) => e matches CuganError::Compute(_),
            },
    {
        let conv0 = cvt(load_conv2d(vb, "conv.0", in_channels, mid_channels, 3, 0, 1))?;
        let conv2 = cvt(load_conv2d(vb, "conv.2", mid_channels, out_channels, 3, 0, 1))?;
        let seblock = if se {
            Some(SeBlock::new(&vb.pp("seblock"), out_channels, 8, true)?)
        } else {
            None
        };
        Ok(UNetConv { conv0, conv2, seblock, in_channels, mid_channels, out_channels })
    }

    /// The two convolutions and activations only, skipping the SE block: the
    /// partial pass the tiled engine stops at before a gating point.
    pub fn forward_convs(&self, x: &candle_core::Tensor) -> (r: Result<
        candle_core::Tensor,
        CuganError,
    >)
        requires
            self.wf(),
            tensor_dims(*x).len() == 4,
            tensor_dims(*x)[1] == self.in_channels,
            tensor_dims(*x)[2] >= 5,
            tensor_dims(*x)[3] >= 5,
        ensures
            match r {
                Ok(y) => {
                    &&& tensor_dims(y) == mk_dims(
                        tensor_dims(*x)[0],
                        self.out_channels as nat,
                        (tensor_dims(*x)[2] - 4) as nat,
                        (tensor_dims(*x)[3] - 4) as nat,
                    )
                    &&& tensor_bits(y) == self.convs_bits(tensor_bits(*x))
                },
                Err(e) => e matches CuganError::Compute(_),
            },
    {
        let a = cvt(conv2d_forward(&self.conv0, x))?;
        let b = leaky_relu(&a, 1, 10)?;
        let c = cvt(conv2d_forward(&self.conv2, &b))?;
        leaky_relu(&c, 1, 10)
    }

    /// The full block: convolutions, then the SE block if present.
    pub fn forward(&self, x: &candle_core::Tensor) -> (r: Result<candle_core::Tensor, CuganError>)
        requires
            self.wf(),
            tensor_dims(*x).len() == 4,
            tensor_dims(*x)[1] == self.in_channels,
            tensor_dims(*x)[2] >= 5,
            tensor_dims(*x)[3] >= 5,
        ensures
            match r {
                Ok(y) => {
                    &&& tensor_dims(y) == mk_dims(
                        tensor_dims(*x)[0],
                        self.out_channels as nat,
                        (tensor_dims(*x)[2] - 4) as nat,
                        (tensor_dims(*x)[3] - 4) as nat,
                    )
                    &&& tensor_bits(y) == self.fwd_bits(tensor_bits(*x))
                },
                Err(e) => e matches CuganError::Compute(_),
            },
    {
        let c = self.forward_convs(x)?;
        match &self.seblock {
            Some(sb) => sb.forward(&c),
            None => Ok(c),
        }
    }
}

/// The output head: a transposed convolution (the upscaling variant) or a
/// plain valid convolution.
pub enum ConvBottom {
    Deconv(candle_nn::ConvTranspose2d),
    Else(candle_nn::Conv2d),
}

impl ConvBottom {
    pub open spec fn wf(self) -> bool {
        match self {
            ConvBottom::Deconv(m) => convt2d_geom(m).dilation == 1 && convt2d_geom(m).out_pad == 0
                && convt2d_geom(m).stride >= 1 && convt2d_geom(m).k >= 1,
            ConvBottom::Else(m) => conv2d_geom(m).dilation == 1 && conv2d_geom(m).groups == 1
                && conv2d_geom(m).stride >= 1 && conv2d_geom(m).k >= 1,
        }
    }

    pub open spec fn in_c(self) -> nat {
        match self {
            ConvBottom::Deconv(m) => convt2d_geom(m).in_c,
            ConvBottom::Else(m) => conv2d_geom(m).in_c,
        }
    }

    pub open spec fn out_c(self) -> nat {
        match self {
            ConvBottom::Deconv(m) => convt2d_geom(m).out_c,
            ConvBottom::Else(m) => conv2d_geom(m).out_c,
        }
    }

    /// The input extents the head accepts without underflowing its output
    /// size formula.
    pub open spec fn accepts(self, h: nat, w: nat) -> bool {
        match self {
            ConvBottom::Deconv(m) => h >= 1 && w >= 1 && (h - 1) * convt2d_geom(m).stride
                + convt2d_geom(m).k >= 2 * convt2d_geom(m).pad && (w - 1) * convt2d_geom(m).stride
                + convt2d_geom(m).k >= 2 * convt2d_geom(m).pad,
            ConvBottom::Else(m) => h + 2 * conv2d_geom(m).pad >= conv2d_geom(m).k && w + 2
                * conv2d_geom(m).pad >= conv2d_geom(m).k,
        }
    }

    /// Output extent for input extent `e`.
    pub open spec fn out_extent(self, e: nat) -> nat {
        match self {
            ConvBottom::Deconv(m) => ((e - 1) * convt2d_geom(m).stride + convt2d_geom(m).k - 2
                * convt2d_geom(m).pad) as nat,
            ConvBottom::Else(m) => ((e + 2 * conv2d_geom(m).pad - conv2d_geom(m).k) as int
                / conv2d_geom(m).stride as int + 1) as nat,
        }
    }

    /// Contents of the head's output.
    pub open spec fn fwd_bits(self, x: Grid) -> Grid {
        match self {
            ConvBottom::Deconv(m) => convt2d_fwd_bits(m, x),
            ConvBottom::Else(m) => conv2d_fwd_bits(m, x),
        }
    }

    pub fn forward(&self, x: &candle_core::Tensor) -> (r: Result<candle_core::Tensor, CuganError>)
        requires
            self.wf(),
            tensor_dims(*x).len() == 4,
            tensor_dims(*x)[1] == self.in_c(),
            self.accepts(tensor_dims(*x)[2], tensor_dims(*x)[3]),
        ensures
            match r {
                Ok(y) => {
                    &&& tensor_dims(y) == mk_dims(
                        tensor_dims(*x)[0],
                        self.out_c(),
                        self.out_extent(tensor_dims(*x)[2]),
                        self.out_extent(tensor_dims(*x)[3]),
                    )
                    &&& tensor_bits(y) == self.fwd_bits(tensor_bits(*x))
                },
                Err(e) => e matches CuganError::Compute(_),
            },
    {
        match self {
            ConvBottom::Deconv(m) => cvt(convt2d_forward(m, x)),
            ConvBottom::Else(m) => cvt(conv2d_forward(m, x)),
        }
    }
}

} // verus!
