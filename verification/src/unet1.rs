//! Stage A: the coarse network.
//!
//! Besides the end-to-end forward pass, the stage exposes the decomposition
//! the tiled engine drives: `forward_a` stops exactly at the SE-gating point
//! (returning the cropped skip tensor and the feature entering that gate), and
//! `forward_b` resumes from an externally gated tensor.  `forward` is their
//! exact composition with the locally gated feature, so resuming with a
//! tile's own mean reproduces the full pass bit for bit.

use vstd::prelude::*;

use crate::errors::{cvt, CuganError};
use crate::grid::{mk_dims, narrow_bits, Grid};
use crate::se_block::SeBlock;
use crate::tensor_ops::{add_t, add_bits, conv2d_forward, conv2d_fwd_bits, conv2d_geom,
    convt2d_forward, convt2d_fwd_bits, convt2d_geom, load_conv2d, load_conv_transpose2d, narrow,
    tensor_bits, tensor_dims, ConvGeom, ConvTGeom, WeightSource};
use crate::unet_conv::{leaky_relu, lrelu_bits, ConvBottom, UNetConv};

verus! {

broadcast use vstd::arithmetic::div_mod::lemma_div_basics_2,
    vstd::arithmetic::div_mod::lemma_hoist_over_denominator;

pub struct UNet1 {
    pub conv1: UNetConv,
    pub conv1_down: candle_nn::Conv2d,
    pub conv2: UNetConv,
    pub conv2_up: candle_nn::ConvTranspose2d,
    pub conv3: candle_nn::Conv2d,
    pub conv_bottom: ConvBottom,
    pub in_channels: usize,
    pub out_channels: usize,
    pub for_x3: bool,
}

/// Configuration of stage A: its outer channel counts and whether the output
/// head upscales by 3 instead of 2.
pub struct UNet1Config {
    pub in_channels: usize,
    pub out_channels: usize,
    pub for_x3: bool,
}

impl UNet1Config {
    pub fn new(in_channels: usize, out_channels: usize, for_x3: bool) -> (r: UNet1Config)
        ensures
            r.in_channels == in_channels,
            r.out_channels == out_channels,
            r.for_x3 == for_x3,
    {
        UNet1Config { in_channels, out_channels, for_x3 }
    }

    /// Builds the stage this configuration describes, with a transposed
    /// convolution head when `deconv` is set.
    pub fn init_with(&self, vb: &WeightSource, deconv: bool) -> (r: Result<UNet1, CuganError>)
        ensures
            match r {
                Ok(u) => u.wf() && u.in_channels == self.in_channels && u.out_channels
                    == self.out_channels && u.for_x3 == self.for_x3 && u.conv2.seblock is Some,
                Err(e) => e matches CuganError::Compute(_),
            },
    {
        UNet1::new(self.in_channels, self.out_channels, deconv, self.for_x3, vb)
    }
}

impl UNet1 {
    pub open spec fn wf(self) -> bool {
        &&& self.conv1.wf()
        &&& self.conv1.in_channels == self.in_channels
        &&& self.conv1.out_channels == 64
        &&& self.conv1.seblock is None
        &&& conv2d_geom(self.conv1_down) == (ConvGeom {
            in_c: 64,
            out_c: 64,
            k: 2,
            pad: 0,
            stride: 2,
            dilation: 1,
            groups: 1,
        })
        &&& self.conv2.wf()
        &&& self.conv2.in_channels == 64
        &&& self.conv2.out_channels == 64
        &&& convt2d_geom(self.conv2_up) == (ConvTGeom {
            in_c: 64,
            out_c: 64,
            k: 2,
            pad: 0,
            out_pad: 0,
            stride: 2,
            dilation: 1,
        })
        &&& conv2d_geom(self.conv3) == (ConvGeom {
            in_c: 64,
            out_c: 64,
            k: 3,
            pad: 0,
            stride: 1,
            dilation: 1,
            groups: 1,
        })
        &&& self.conv_bottom.wf()
        &&& self.conv_bottom.in_c() == 64
        &&& self.conv_bottom.out_c() == self.out_channels
        &&& match self.conv_bottom {
            ConvBottom::Deconv(m) => convt2d_geom(m) == (ConvTGeom {
                in_c: 64,
                out_c: self.out_channels as nat,
                k: if self.for_x3 { 5nat } else { 4nat },
                pad: if self.for_x3 { 2nat } else { 3nat },
                out_pad: 0,
                stride: if self.for_x3 { 3nat } else { 2nat },
                dilation: 1,
            }),
            ConvBottom::Else(m) => conv2d_geom(m) == (ConvGeom {
                in_c: 64,
                out_c: self.out_channels as nat,
                k: 3,
                pad: 0,
                stride: 1,
                dilation: 1,
                groups: 1,
            }),
        }
    }

    /// Contents of the cropped skip tensor `forward_a` returns first: the
    /// first block's output with 4 positions trimmed from each spatial edge.
    pub open spec fn a_skip_bits(self, g: Grid, n: nat, h: nat, w: nat) -> Grid {
        narrow_bits(
            narrow_bits(
                self.conv1.fwd_bits(g),
                mk_dims(n, 64, (h - 4) as nat, (w - 4) as nat),
                3,
                4,
                (w - 12) as nat,
            ),
            mk_dims(n, 64, (h - 4) as nat, (w - 12) as nat),
            2,
            4,
            (h - 12) as nat,
        )
    }

    /// Contents of the feature entering the stage's SE gate (the second
    /// tensor `forward_a` returns): downsampled, activated, and passed
    /// through the second block's convolutions only.
    pub open spec fn a_pre_bits(self, g: Grid) -> Grid {
        self.conv2.convs_bits(
            lrelu_bits(conv2d_fwd_bits(self.conv1_down, self.conv1.fwd_bits(g)), 1, 10),
        )
    }

    /// Contents of `forward_b`: upsample the gated feature, add the skip,
    /// convolve, and run the output head.
    pub open spec fn b_bits(self, x1: Grid, x2: Grid) -> Grid {
        self.conv_bottom.fwd_bits(
            lrelu_bits(
                conv2d_fwd_bits(
                    self.conv3,
                    add_bits(x1, lrelu_bits(convt2d_fwd_bits(self.conv2_up, x2), 1, 10)),
                ),
                1,
                10,
            ),
        )
    }

    /// Contents of the full pass: `forward_b` resumed on the locally gated
    /// feature (or the ungated one, for a stage built without an SE block).
    pub open spec fn fwd_bits(self, g: Grid, n: nat, h: nat, w: nat) -> Grid {
        self.b_bits(
            self.a_skip_bits(g, n, h, w),
            match self.conv2.seblock {
                Some(sb) => sb.se_bits(self.a_pre_bits(g)),
                None => self.a_pre_bits(g),
            },
        )
    }

    /// Output spatial extent of the full pass for input extent `e`.
    pub open spec fn out_extent(self, e: nat) -> nat {
        self.conv_bottom.out_extent((e - 14) as nat)
    }

    /// Loads stage A: a plain block, a stride-2 downsample, a gated block, a
    /// stride-2 upsample, a 3x3 convolution, and the output head.
    #[verifier::spinoff_prover]
    pub fn new(
        in_channels: usize,
        out_channels: usize,
        deconv: bool,
        for_x3: bool,
        vb: &WeightSource,
    ) -> (r: Result<UNet1, CuganError>)
        ensures
            match r {
                Ok(u) => u.wf() && u.in_channels == in_channels && u.out_channels == out_channels
                    && u.for_x3 == for_x3 && u.conv2.seblock is Some && (u.conv_bottom is Deconv
                    <==> deconv),
                Err(e) => e matches CuganError::Compute(_),
            },
    {
        let conv1 = UNetConv::new(in_channels, 32, 64, false, &vb.pp("conv1"))?;
        let conv1_down = cvt(load_conv2d(vb, "conv1_down", 64, 64, 2, 0, 2))?;
        let conv2 = UNetConv::new(64, 128, 64, true, &vb.pp("conv2"))?;
        let conv2_up = cvt(load_conv_transpose2d(vb, "conv2_up", 64, 64, 2, 0, 2))?;
        let conv3 = cvt(load_conv2d(vb, "conv3", 64, 64, 3, 0, 1))?;
        let conv_bottom = if deconv {
            let k: usize = if for_x3 { 5 } else { 4 };
            let pad: usize = if for_x3 { 2 } else { 3 };
            let stride: usize = if for_x3 { 3 } else { 2 };
            ConvBottom::Deconv(
                cvt(load_conv_transpose2d(vb, "conv_bottom", 64, out_channels, k, pad, stride))?,
            )
        } else {
            ConvBottom::Else(cvt(load_conv2d(vb, "conv_bottom", 64, out_channels, 3, 0, 1))?)
        };
        Ok(
            UNet1 {
                conv1,
                conv1_down,
                conv2,
                conv2_up,
                conv3,
                conv_bottom,
                in_channels,
                out_channels,
                for_x3,
            },
        )
    }

    /// The partial pass up to the SE-gating point: returns the cropped skip
    /// tensor and the ungated feature entering the gating point.
    pub fn forward_a(&self, x: &candle_core::Tensor) -> (r: Result<
        (candle_core::Tensor, candle_core::Tensor),
        CuganError,
    >)
        requires
            self.wf(),
            tensor_dims(*x).len() == 4,
            tensor_dims(*x)[1] == self.in_channels,
            tensor_dims(*x)[2] >= 14,
            tensor_dims(*x)[3] >= 14,
            tensor_dims(*x)[2] % 2 == 0,
            tensor_dims(*x)[3] % 2 == 0,
        ensures
            match r {
                Ok((x1, x2)) => {
                    &&& tensor_dims(x1) == mk_dims(
                        tensor_dims(*x)[0],
                        64,
                        (tensor_dims(*x)[2] - 12) as nat,
                        (tensor_dims(*x)[3] - 12) as nat,
                    )
                    &&& tensor_bits(x1) == self.a_skip_bits(
                        tensor_bits(*x),
                        tensor_dims(*x)[0],
                        tensor_dims(*x)[2],
                        tensor_dims(*x)[3],
                    )
                    &&& tensor_dims(x2) == mk_dims(
                        tensor_dims(*x)[0],
                        64,
                        ((tensor_dims(*x)[2] - 12) as int / 2) as nat,
                        ((tensor_dims(*x)[3] - 12) as int / 2) as nat,
                    )
                    &&& tensor_bits(x2) == self.a_pre_bits(tensor_bits(*x))
                },
                Err(e) => e matches CuganError::Compute(_),
            },
    {
        let ghost h = tensor_dims(*x)[2] as int;
        let ghost w = tensor_dims(*x)[3] as int;
        let (_, _, xh, xw) = crate::tensor_ops::dims4_ok(x);
        let c1 = self.conv1.forward(x)?;
        let down = cvt(conv2d_forward(&self.conv1_down, &c1))?;
        proof {
            lemma_even_shift_half(h);
            lemma_even_shift_half(w);
        }
        let x1a = narrow(&c1, 3, 4, xw - 12);
        let x1 = narrow(&x1a, 2, 4, xh - 12);
        let act = leaky_relu(&down, 1, 10)?;
        let x2 = self.conv2.forward_convs(&act)?;
        Ok((x1, x2))
    }

    /// Resumes the stage from the (externally gated) feature `x2`: upsample,
    /// add the skip `x1`, convolve, and run the output head.
    pub fn forward_b(&self, x1: &candle_core::Tensor, x2: &candle_core::Tensor) -> (r: Result<
        candle_core::Tensor,
        CuganError,
    >)
        requires
            self.wf(),
            tensor_dims(*x1).len() == 4,
            tensor_dims(*x1)[1] == 64,
            tensor_dims(*x2) == mk_dims(
                tensor_dims(*x1)[0],
                64,
                (tensor_dims(*x1)[2] as int / 2) as nat,
                (tensor_dims(*x1)[3] as int / 2) as nat,
            ),
            tensor_dims(*x1)[2] % 2 == 0,
            tensor_dims(*x1)[3] % 2 == 0,
            tensor_dims(*x1)[2] >= 4,
            tensor_dims(*x1)[3] >= 4,
            self.conv_bottom.accepts(
                (tensor_dims(*x1)[2] - 2) as nat,
                (tensor_dims(*x1)[3] - 2) as nat,
            ),
        ensures
            match r {
                Ok(y) => {
                    &&& tensor_dims(y) == mk_dims(
                        tensor_dims(*x1)[0],
                        self.out_channels as nat,
                        self.conv_bottom.out_extent((tensor_dims(*x1)[2] - 2) as nat),
                        self.conv_bottom.out_extent((tensor_dims(*x1)[3] - 2) as nat),
                    )
                    &&& tensor_bits(y) == self.b_bits(tensor_bits(*x1), tensor_bits(*x2))
                },
                Err(e) => e matches CuganError::Compute(_),
            },
    {
        let ghost hh = tensor_dims(*x1)[2] as int;
        let ghost ww = tensor_dims(*x1)[3] as int;
        let ghost n0 = tensor_dims(*x1)[0];
        proof {
            lemma_even_double_half(hh);
            lemma_even_double_half(ww);
        }
        let up = cvt(convt2d_forward(&self.conv2_up, x2))?;
        proof {
            assert(convt2d_geom(self.conv2_up).stride == 2);
            assert(tensor_dims(*x2)[2] == (hh / 2) as nat);
            assert((hh / 2) as nat as int == hh / 2);
            assert(((hh / 2) as nat - 1) * 2 + 1 * (2 - 1) + 0 + 1 - 2 * 0 == hh);
            assert(tensor_dims(up)[2] == hh);
            assert(tensor_dims(up)[3] == ww);
            assert(tensor_dims(up) =~= tensor_dims(*x1));
        }
        let upa = leaky_relu(&up, 1, 10)?;
        let s = cvt(add_t(x1, &upa))?;
        let c3 = cvt(conv2d_forward(&self.conv3, &s))?;
        let c3a = leaky_relu(&c3, 1, 10)?;
        self.conv_bottom.forward(&c3a)
    }

    /// The end-to-end pass: the decomposition resumed on the locally gated
    /// feature, so it equals `forward_a` + local SE + `forward_b` exactly.
    pub fn forward(&self, x: &candle_core::Tensor) -> (r: Result<candle_core::Tensor, CuganError>)
        requires
            self.wf(),
            tensor_dims(*x).len() == 4,
            tensor_dims(*x)[1] == self.in_channels,
            tensor_dims(*x)[2] >= 16,
            tensor_dims(*x)[3] >= 16,
            tensor_dims(*x)[2] % 2 == 0,
            tensor_dims(*x)[3] % 2 == 0,
            self.conv_bottom.accepts(
                (tensor_dims(*x)[2] - 14) as nat,
                (tensor_dims(*x)[3] - 14) as nat,
            ),
        ensures
            match r {
                Ok(y) => {
                    &&& tensor_dims(y) == mk_dims(
                        tensor_dims(*x)[0],
                        self.out_channels as nat,
                        self.out_extent(tensor_dims(*x)[2]),
                        self.out_extent(tensor_dims(*x)[3]),
                    )
                    &&& tensor_bits(y) == self.fwd_bits(
                        tensor_bits(*x),
                        tensor_dims(*x)[0],
                        tensor_dims(*x)[2],
                        tensor_dims(*x)[3],
                    )
                },
                Err(e) => e matches CuganError::Compute(_),
            },
    {
        let ghost h = tensor_dims(*x)[2] as int;
        let ghost w = tensor_dims(*x)[3] as int;
        let (x1, x2) = self.forward_a(x)?;
        let gated = match &self.conv2.seblock {
            Some(sb) => sb.forward(&x2)?,
            None => x2,
        };
        proof {
            lemma_even_shift_half(h);
            lemma_even_shift_half(w);
            assert(tensor_dims(gated) =~= mk_dims(
                tensor_dims(x1)[0],
                64,
                (tensor_dims(x1)[2] as int / 2) as nat,
                (tensor_dims(x1)[3] as int / 2) as nat,
            ));
        }
        self.forward_b(&x1, &gated)
    }
}

/// For even `x >= 12`: `(x - 12) / 2 == (x - 4) / 2 - 4`, the two ways the
/// downsampled extent is written.
proof fn lemma_even_shift_half(x: int)
    requires
        x % 2 == 0,
        x >= 12,
    ensures
        (x - 6) / 2 + 1 == (x - 4) / 2,
        (x - 4) / 2 - 4 == (x - 12) / 2,
        (x - 12) / 2 >= 1 <==> x >= 14,
        2 * ((x - 12) / 2) == x - 12,
        (x - 12) % 2 == 0,
{
    vstd::arithmetic::div_mod::lemma_hoist_over_denominator(x - 6, 1, 2);
    vstd::arithmetic::div_mod::lemma_hoist_over_denominator(x - 12, 4, 2);
    assert((2 * (-6) + x) % 2 == x % 2) by {
        vstd::arithmetic::div_mod::lemma_mod_multiples_vanish(-6, x, 2);
    }
    vstd::arithmetic::div_mod::lemma_fundamental_div_mod(x - 12, 2);
}

/// For even nonnegative `x`: doubling the half gives `x` back.
proof fn lemma_even_double_half(x: int)
    requires
        x % 2 == 0,
        x >= 0,
    ensures
        2 * (x / 2) == x,
        (x / 2 - 1) * 2 + 2 == x,
        x / 2 >= 0,
        x >= 4 ==> x / 2 >= 2,
{
    vstd::arithmetic::div_mod::lemma_fundamental_div_mod(x, 2);
    vstd::arithmetic::div_mod::lemma_mod_bound(x, 2);
}

} // verus!
