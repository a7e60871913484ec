//! Stage B: the refinement network.
//!
//! The stage has three SE-gated blocks, so its decomposition has four entry
//! points: `forward_a`, `forward_b` and `forward_c` each stop exactly at the
//! next gating point and resume from an externally gated tensor, and
//! `forward_d` finishes the pass.  `forward` is their exact composition with
//! locally gated features, with the configured `alpha` factor applied to the
//! feature entering the third gate.

use vstd::prelude::*;

use crate::errors::{cvt, CuganError};
use crate::grid::{mk_dims, narrow_bits, Grid};
use crate::tensor_ops::{add_bits, add_t, bmul_bits, bmul_t, clone_tensor, conv2d_forward,
    conv2d_fwd_bits, conv2d_geom, convt2d_forward, convt2d_fwd_bits, convt2d_geom, dims4,
    dims4_ok, load_conv2d, load_conv_transpose2d, narrow, tensor_bits, tensor_dims, ConvGeom,
    ConvTGeom, WeightSource};
use crate::unet_conv::{leaky_relu, lrelu_bits, ConvBottom, UNetConv};

verus! {

broadcast use vstd::arithmetic::div_mod::lemma_div_basics_2,
    vstd::arithmetic::div_mod::lemma_hoist_over_denominator;

pub struct UNet2 {
    pub conv1: UNetConv,
    pub conv1_down: candle_nn::Conv2d,
    pub conv2: UNetConv,
    pub conv2_down: candle_nn::Conv2d,
    pub conv3: UNetConv,
    pub conv3_up: candle_nn::ConvTranspose2d,
    pub conv4: UNetConv,
    pub conv4_up: candle_nn::ConvTranspose2d,
    pub conv5: candle_nn::Conv2d,
    pub conv_bottom: ConvBottom,
    pub alpha: candle_core::Tensor,
    pub in_channels: usize,
    pub out_channels: usize,
}

impl UNet2 {
    pub open spec fn wf(self) -> bool {
        &&& self.conv1.wf()
        &&& self.conv1.in_channels == self.in_channels
        &&& self.conv1.out_channels == 64
        &&& self.conv1.seblock is None
        &&& conv2d_geom(self.conv1_down) == (ConvGeom {
            in_c: 64,
            out_c: 64,
            k: 2,
            pad: 0,
            stride: 2,
            dilation: 1,
            groups: 1,
        })
        &&& self.conv2.wf()
        &&& self.conv2.in_channels == 64
        &&& self.conv2.out_channels == 128
        &&& self.conv2.seblock is Some
        &&& conv2d_geom(self.conv2_down) == (ConvGeom {
            in_c: 128,
            out_c: 128,
            k: 2,
            pad: 0,
            stride: 2,
            dilation: 1,
            groups: 1,
        })
        &&& self.conv3.wf()
        &&& self.conv3.in_channels == 128
        &&& self.conv3.out_channels == 128
        &&& self.conv3.seblock is Some
        &&& convt2d_geom(self.conv3_up) == (ConvTGeom {
            in_c: 128,
            out_c: 128,
            k: 2,
            pad: 0,
            out_pad: 0,
            stride: 2,
            dilation: 1,
        })
        &&& self.conv4.wf()
        &&& self.conv4.in_channels == 128
        &&& self.conv4.out_channels == 64
        &&& self.conv4.seblock is Some
        &&& convt2d_geom(self.conv4_up) == (ConvTGeom {
            in_c: 64,
            out_c: 64,
            k: 2,
            pad: 0,
            out_pad: 0,
            stride: 2,
            dilation: 1,
        })
        &&& conv2d_geom(self.conv5) == (ConvGeom {
            in_c: 64,
            out_c: 64,
            k: 3,
            pad: 0,
            stride: 1,
            dilation: 1,
            groups: 1,
        })
        &&& self.conv_bottom.wf()
        &&& self.conv_bottom.in_c() == 64
        &&& self.conv_bottom.out_c() == self.out_channels
        &&& match self.conv_bottom {
            ConvBottom::Deconv(m) => convt2d_geom(m) == (ConvTGeom {
                in_c: 64,
                out_c: self.out_channels as nat,
                k: 4,
                pad: 3,
                out_pad: 0,
                stride: 2,
                dilation: 1,
            }),
            ConvBottom::Else(m) => conv2d_geom(m) == (ConvGeom {
                in_c: 64,
                out_c: self.out_channels as nat,
                k: 3,
                pad: 0,
                stride: 1,
                dilation: 1,
                groups: 1,
            }),
        }
        &&& tensor_dims(self.alpha) == mk_dims(1, 1, 1, 1)
    }

    /// Contents of the skip tensor `forward_a` returns first: the first
    /// block's output with 16 positions trimmed from each spatial edge.
    pub open spec fn a_skip_bits(self, g: Grid, n: nat, h: nat, w: nat) -> Grid {
        narrow_bits(
            narrow_bits(
                self.conv1.fwd_bits(g),
                mk_dims(n, 64, (h - 4) as nat, (w - 4) as nat),
                3,
                16,
                (w - 36) as nat,
            ),
            mk_dims(n, 64, (h - 4) as nat, (w - 36) as nat),
            2,
            16,
            (h - 36) as nat,
        )
    }

    /// Contents of the feature entering the first of this stage's SE gates.
    pub open spec fn a_pre_bits(self, g: Grid) -> Grid {
        self.conv2.convs_bits(
            lrelu_bits(conv2d_fwd_bits(self.conv1_down, self.conv1.fwd_bits(g)), 1, 10),
        )
    }

    /// Contents of the gated feature trimmed by 4 on each spatial edge: the
    /// skip that `forward_b` returns alongside the next pre-gate feature.
    pub open spec fn b_skip_bits(self, x2g: Grid, n: nat, m: nat, mw: nat) -> Grid {
        narrow_bits(
            narrow_bits(x2g, mk_dims(n, 128, m, mw), 3, 4, (mw - 8) as nat),
            mk_dims(n, 128, m, (mw - 8) as nat),
            2,
            4,
            (m - 8) as nat,
        )
    }

    /// Contents of the feature entering the second of this stage's SE gates.
    pub open spec fn b_pre_bits(self, x2g: Grid) -> Grid {
        self.conv3.convs_bits(lrelu_bits(conv2d_fwd_bits(self.conv2_down, x2g), 1, 10))
    }

    /// Contents of the feature entering the third gate, before the `alpha`
    /// factor: upsample the gated feature, add the skip, convolve.
    pub open spec fn c_bits(self, x2n: Grid, x3g: Grid) -> Grid {
        self.conv4.convs_bits(
            add_bits(x2n, lrelu_bits(convt2d_fwd_bits(self.conv3_up, x3g), 1, 10)),
        )
    }

    /// Contents of the finishing pass: upsample the gated feature, add the
    /// outer skip, convolve, and run the output head.
    pub open spec fn d_bits(self, x1: Grid, x4g: Grid) -> Grid {
        self.conv_bottom.fwd_bits(
            lrelu_bits(
                conv2d_fwd_bits(
                    self.conv5,
                    add_bits(x1, lrelu_bits(convt2d_fwd_bits(self.conv4_up, x4g), 1, 10)),
                ),
                1,
                10,
            ),
        )
    }

    /// Contents of the full pass: the decomposition resumed on locally gated
    /// features, with `alpha` applied to the feature entering the third gate.
    pub open spec fn fwd_bits(self, g: Grid, n: nat, h: nat, w: nat) -> Grid {
        let x1 = self.a_skip_bits(g, n, h, w);
        let x2 = self.a_pre_bits(g);
        let x2g = match self.conv2.seblock {
            Some(sb) => sb.se_bits(x2),
            None => x2,
        };
        let m = ((h - 12) as int / 2) as nat;
        let mw = ((w - 12) as int / 2) as nat;
        let x2n = self.b_skip_bits(x2g, n, m, mw);
        let x3 = self.b_pre_bits(x2g);
        let x3g = match self.conv3.seblock {
            Some(sb) => sb.se_bits(x3),
            None => x3,
        };
        let x4 = bmul_bits(self.c_bits(x2n, x3g), tensor_bits(self.alpha));
        let x4g = match self.conv4.seblock {
            Some(sb) => sb.se_bits(x4),
            None => x4,
        };
        self.d_bits(x1, x4g)
    }

    /// Output spatial extent of the full pass for input extent `e`.
    pub open spec fn out_extent(self, e: nat) -> nat {
        self.conv_bottom.out_extent((e - 38) as nat)
    }

    /// Loads stage B: four blocks with down/upsampling between them, three of
    /// them SE-gated, plus the output head and the `alpha` scalar.
    #[verifier::spinoff_prover]
    pub fn new(
        in_channels: usize,
        out_channels: usize,
        deconv: bool,
        alpha: &candle_core::Tensor,
        vb: &WeightSource,
    ) -> (r: Result<UNet2, CuganError>)
        ensures
            match r {
                Ok(u) => {
                    &&& u.wf()
                    &&& u.in_channels == in_channels
                    &&& u.out_channels == out_channels
                    &&& tensor_bits(u.alpha) == tensor_bits(*alpha)
                    &&& (u.conv_bottom is Deconv <==> deconv)
                },
                Err(e) => e matches CuganError::Compute(_) || e matches CuganError::InvalidInput,
            },
            !(tensor_dims(*alpha) == mk_dims(1, 1, 1, 1)) ==> r matches Err(
                CuganError::InvalidInput,
            ),
    {
        let (a0, a1, a2, a3) = match dims4(alpha) {
            Ok(d) => d,
            Err(_) => {
                proof {
                    assert(!(tensor_dims(*alpha) =~= mk_dims(1, 1, 1, 1)));
                }
                return Err(CuganError::InvalidInput);
            },
        };
        if a0 != 1 || a1 != 1 || a2 != 1 || a3 != 1 {
            proof {
                assert(!(tensor_dims(*alpha) =~= mk_dims(1, 1, 1, 1)));
            }
            return Err(CuganError::InvalidInput);
        }
        proof {
            assert(tensor_dims(*alpha) =~= mk_dims(1, 1, 1, 1));
        }
        let conv1 = UNetConv::new(in_channels, 32, 64, false, &vb.pp("conv1"))?;
        let conv1_down = cvt(load_conv2d(vb, "conv1_down", 64, 64, 2, 0, 2))?;
        let conv2 = UNetConv::new(64, 64, 128, true, &vb.pp("conv2"))?;
        let conv2_down = cvt(load_conv2d(vb, "conv2_down", 128, 128, 2, 0, 2))?;
        let conv3 = UNetConv::new(128, 256, 128, true, &vb.pp("conv3"))?;
        let conv3_up = cvt(load_conv_transpose2d(vb, "conv3_up", 128, 128, 2, 0, 2))?;
        let conv4 = UNetConv::new(128, 64, 64, true, &vb.pp("conv4"))?;
        let conv4_up = cvt(load_conv_transpose2d(vb, "conv4_up", 64, 64, 2, 0, 2))?;
        let conv5 = cvt(load_conv2d(vb, "conv5", 64, 64, 3, 0, 1))?;
        let conv_bottom = if deconv {
            ConvBottom::Deconv(
                cvt(load_conv_transpose2d(vb, "conv_bottom", 64, out_channels, 4, 3, 2))?,
            )
        } else {
            ConvBottom::Else(cvt(load_conv2d(vb, "conv_bottom", 64, out_channels, 3, 0, 1))?)
        };
        Ok(
            UNet2 {
                conv1,
                conv1_down,
                conv2,
                conv2_down,
                conv3,
                conv3_up,
                conv4,
                conv4_up,
                conv5,
                conv_bottom,
                alpha: clone_tensor(alpha),
                in_channels,
                out_channels,
            },
        )
    }

    /// The partial pass up to the first of this stage's SE gates: returns the
    /// outer skip tensor and the ungated feature entering the gating point.
    pub fn forward_a(&self, x: &candle_core::Tensor) -> (r: Result<
        (candle_core::Tensor, candle_core::Tensor),
        CuganError,
    >)
        requires
            self.wf(),
            tensor_dims(*x).len() == 4,
            tensor_dims(*x)[1] == self.in_channels,
            tensor_dims(*x)[2] >= 38,
            tensor_dims(*x)[3] >= 38,
            tensor_dims(*x)[2] % 2 == 0,
            tensor_dims(*x)[3] % 2 == 0,
        ensures
            match r {
                Ok((x1, x2)) => {
                    &&& tensor_dims(x1) == mk_dims(
                        tensor_dims(*x)[0],
                        64,
                        (tensor_dims(*x)[2] - 36) as nat,
                        (tensor_dims(*x)[3] - 36) as nat,
                    )
                    &&& tensor_bits(x1) == self.a_skip_bits(
                        tensor_bits(*x),
                        tensor_dims(*x)[0],
                        tensor_dims(*x)[2],
                        tensor_dims(*x)[3],
                    )
                    &&& tensor_dims(x2) == mk_dims(
                        tensor_dims(*x)[0],
                        128,
                        ((tensor_dims(*x)[2] - 12) as int / 2) as nat,
                        ((tensor_dims(*x)[3] - 12) as int / 2) as nat,
                    )
                    &&& tensor_bits(x2) == self.a_pre_bits(tensor_bits(*x))
                },
                Err(e) => e matches CuganError::Compute(_),
            },
    {
        let ghost h = tensor_dims(*x)[2] as int;
        let ghost w = tensor_dims(*x)[3] as int;
        let (_, _, xh, xw) = dims4_ok(x);
        let c1 = self.conv1.forward(x)?;
        let down = cvt(conv2d_forward(&self.conv1_down, &c1))?;
        proof {
            lemma_even_extent(h);
            lemma_even_extent(w);
        }
        let x1a = narrow(&c1, 3, 16, xw - 36);
        let x1 = narrow(&x1a, 2, 16, xh - 36);
        let act = leaky_relu(&down, 1, 10)?;
        let x2 = self.conv2.forward_convs(&act)?;
        Ok((x1, x2))
    }

    /// Resumes from the first gated feature and stops at the second gate:
    /// returns the trimmed gated feature and the next pre-gate feature.
    pub fn forward_b(&self, x2g: &candle_core::Tensor) -> (r: Result<
        (candle_core::Tensor, candle_core::Tensor),
        CuganError,
    >)
        requires
            self.wf(),
            tensor_dims(*x2g).len() == 4,
            tensor_dims(*x2g)[1] == 128,
            tensor_dims(*x2g)[2] >= 10,
            tensor_dims(*x2g)[3] >= 10,
            tensor_dims(*x2g)[2] % 2 == 0,
            tensor_dims(*x2g)[3] % 2 == 0,
        ensures
            match r {
                Ok((x2n, x3)) => {
                    &&& tensor_dims(x2n) == mk_dims(
                        tensor_dims(*x2g)[0],
                        128,
                        (tensor_dims(*x2g)[2] - 8) as nat,
                        (tensor_dims(*x2g)[3] - 8) as nat,
                    )
                    &&& tensor_bits(x2n) == self.b_skip_bits(
                        tensor_bits(*x2g),
                        tensor_dims(*x2g)[0],
                        tensor_dims(*x2g)[2],
                        tensor_dims(*x2g)[3],
                    )
                    &&& tensor_dims(x3) == mk_dims(
                        tensor_dims(*x2g)[0],
                        128,
                        (tensor_dims(*x2g)[2] as int / 2 - 4) as nat,
                        (tensor_dims(*x2g)[3] as int / 2 - 4) as nat,
                    )
                    &&& tensor_bits(x3) == self.b_pre_bits(tensor_bits(*x2g))
                },
                Err(e) => e matches CuganError::Compute(_),
            },
    {
        let ghost m = tensor_dims(*x2g)[2] as int;
        let ghost mw = tensor_dims(*x2g)[3] as int;
        let (_, _, gh, gw) = dims4_ok(x2g);
        let down = cvt(conv2d_forward(&self.conv2_down, x2g))?;
        proof {
            lemma_even_down(m);
            lemma_even_down(mw);
        }
        let x2a = narrow(x2g, 3, 4, gw - 8);
        let x2n = narrow(&x2a, 2, 4, gh - 8);
        let act = leaky_relu(&down, 1, 10)?;
        let x3 = self.conv3.forward_convs(&act)?;
        Ok((x2n, x3))
    }

    /// Resumes from the second gated feature and stops at the third gate
    /// (before the `alpha` factor): upsample, add the trimmed skip, convolve.
    pub fn forward_c(&self, x2n: &candle_core::Tensor, x3g: &candle_core::Tensor) -> (r: Result<
        candle_core::Tensor,
        CuganError,
    >)
        requires
            self.wf(),
            tensor_dims(*x2n).len() == 4,
            tensor_dims(*x2n)[1] == 128,
            tensor_dims(*x2n)[2] >= 6,
            tensor_dims(*x2n)[3] >= 6,
            tensor_dims(*x2n)[2] % 2 == 0,
            tensor_dims(*x2n)[3] % 2 == 0,
            tensor_dims(*x3g) == mk_dims(
                tensor_dims(*x2n)[0],
                128,
                (tensor_dims(*x2n)[2] as int / 2) as nat,
                (tensor_dims(*x2n)[3] as int / 2) as nat,
            ),
        ensures
            match r {
                Ok(x4) => {
                    &&& tensor_dims(x4) == mk_dims(
                        tensor_dims(*x2n)[0],
                        64,
                        (tensor_dims(*x2n)[2] - 4) as nat,
                        (tensor_dims(*x2n)[3] - 4) as nat,
                    )
                    &&& tensor_bits(x4) == self.c_bits(tensor_bits(*x2n), tensor_bits(*x3g))
                },
                Err(e) => e matches CuganError::Compute(_),
            },
    {
        let ghost p = tensor_dims(*x2n)[2] as int;
        let ghost q = tensor_dims(*x2n)[3] as int;
        proof {
            lemma_even_up(p);
            lemma_even_up(q);
        }
        let up = cvt(convt2d_forward(&self.conv3_up, x3g))?;
        proof {
            assert(tensor_dims(up)[2] == p);
            assert(tensor_dims(up)[3] == q);
            assert(tensor_dims(up) =~= tensor_dims(*x2n));
        }
        let upa = leaky_relu(&up, 1, 10)?;
        let s = cvt(add_t(x2n, &upa))?;
        self.conv4.forward_convs(&s)
    }

    /// Finishes the pass from the third gated feature: upsample, add the
    /// outer skip, convolve, and run the output head.
    #[verifier::rlimit(60)]
    pub fn forward_d(&self, x1: &candle_core::Tensor, x4g: &candle_core::Tensor) -> (r: Result<
        candle_core::Tensor,
        CuganError,
    >)
        requires
            self.wf(),
            tensor_dims(*x1).len() == 4,
            tensor_dims(*x1)[1] == 64,
            tensor_dims(*x1)[2] >= 4,
            tensor_dims(*x1)[3] >= 4,
            tensor_dims(*x1)[2] % 2 == 0,
            tensor_dims(*x1)[3] % 2 == 0,
            tensor_dims(*x4g) == mk_dims(
                tensor_dims(*x1)[0],
                64,
                (tensor_dims(*x1)[2] as int / 2) as nat,
                (tensor_dims(*x1)[3] as int / 2) as nat,
            ),
            self.conv_bottom.accepts(
                (tensor_dims(*x1)[2] - 2) as nat,
                (tensor_dims(*x1)[3] - 2) as nat,
            ),
        ensures
            match r {
                Ok(y) => {
                    &&& tensor_dims(y) == mk_dims(
                        tensor_dims(*x1)[0],
                        self.out_channels as nat,
                        self.conv_bottom.out_extent((tensor_dims(*x1)[2] - 2) as nat),
                        self.conv_bottom.out_extent((tensor_dims(*x1)[3] - 2) as nat),
                    )
                    &&& tensor_bits(y) == self.d_bits(tensor_bits(*x1), tensor_bits(*x4g))
                },
                Err(e) => e matches CuganError::Compute(_),
            },
    {
        let ghost u = tensor_dims(*x1)[2] as int;
        let ghost v = tensor_dims(*x1)[3] as int;
        proof {
            lemma_even_up(u);
            lemma_even_up(v);
        }
        let up = cvt(convt2d_forward(&self.conv4_up, x4g))?;
        proof {
            assert(tensor_dims(up)[2] == u);
            assert(tensor_dims(up)[3] == v);
            assert(tensor_dims(up) =~= tensor_dims(*x1));
        }
        let upa = leaky_relu(&up, 1, 10)?;
        let s = cvt(add_t(x1, &upa))?;
        let c5 = cvt(conv2d_forward(&self.conv5, &s))?;
        let c5a = leaky_relu(&c5, 1, 10)?;
        self.conv_bottom.forward(&c5a)
    }

    /// The end-to-end pass: the decomposition resumed on locally gated
    /// features, so it equals the four partial passes with local SE gates and
    /// the `alpha` factor applied before the third gate.
    pub fn forward(&self, x: &candle_core::Tensor) -> (r: Result<candle_core::Tensor, CuganError>)
        requires
            self.wf(),
            tensor_dims(*x).len() == 4,
            tensor_dims(*x)[1] == self.in_channels,
            tensor_dims(*x)[2] >= 44,
            tensor_dims(*x)[3] >= 44,
            tensor_dims(*x)[2] % 4 == 0,
            tensor_dims(*x)[3] % 4 == 0,
            self.conv_bottom.accepts(
                (tensor_dims(*x)[2] - 38) as nat,
                (tensor_dims(*x)[3] - 38) as nat,
            ),
        ensures
            match r {
                Ok(y) => {
                    &&& tensor_dims(y) == mk_dims(
                        tensor_dims(*x)[0],
                        self.out_channels as nat,
                        self.out_extent(tensor_dims(*x)[2]),
                        self.out_extent(tensor_dims(*x)[3]),
                    )
                    &&& tensor_bits(y) == self.fwd_bits(
                        tensor_bits(*x),
                        tensor_dims(*x)[0],
                        tensor_dims(*x)[2],
                        tensor_dims(*x)[3],
                    )
                },
                Err(e) => e matches CuganError::Compute(_),
            },
    {
        let ghost h = tensor_dims(*x)[2] as int;
        let ghost w = tensor_dims(*x)[3] as int;
        proof {
            lemma_mod4_steps(h);
            lemma_mod4_steps(w);
        }
        let (x1, x2) = self.forward_a(x)?;
        let x2g = match &self.conv2.seblock {
            Some(sb) => sb.forward(&x2)?,
            None => x2,
        };
        let (x2n, x3) = self.forward_b(&x2g)?;
        let x3g = match &self.conv3.seblock {
            Some(sb) => sb.forward(&x3)?,
            None => x3,
        };
        proof {
            let m = (h - 12) / 2;
            let mw = (w - 12) / 2;
            assert(tensor_dims(x3g) =~= mk_dims(
                tensor_dims(x2n)[0],
                128,
                (tensor_dims(x2n)[2] as int / 2) as nat,
                (tensor_dims(x2n)[3] as int / 2) as nat,
            )) by {
                lemma_even_down(m);
                lemma_even_down(mw);
            }
        }
        let x4 = self.forward_c(&x2n, &x3g)?;
        let x4a = cvt(bmul_t(&x4, &self.alpha))?;
        let x4g = match &self.conv4.seblock {
            Some(sb) => sb.forward(&x4a)?,
            None => x4a,
        };
        proof {
            let m = (h - 12) / 2;
            let mw = (w - 12) / 2;
            assert(tensor_dims(x4g) =~= mk_dims(
                tensor_dims(x1)[0],
                64,
                (tensor_dims(x1)[2] as int / 2) as nat,
                (tensor_dims(x1)[3] as int / 2) as nat,
            )) by {
                lemma_mod4_steps(h);
                lemma_mod4_steps(w);
            }
        }
        self.forward_d(&x1, &x4g)
    }
}

/// For even `x >= 38`: the extents produced by `forward_a`, and that the
/// downsampled extent is at least 10 when `x >= 32`.
proof fn lemma_even_extent(x: int)
    requires
        x % 2 == 0,
        x >= 38,
    ensures
        (x - 6) / 2 + 1 == (x - 4) / 2,
        (x - 4) / 2 - 4 == (x - 12) / 2,
        (x - 12) / 2 >= 13,
        2 * ((x - 12) / 2) == x - 12,
        (x - 12) % 2 == 0,
{
    vstd::arithmetic::div_mod::lemma_hoist_over_denominator(x - 6, 1, 2);
    vstd::arithmetic::div_mod::lemma_hoist_over_denominator(x - 12, 4, 2);
    assert((2 * (-6) + x) % 2 == x % 2) by {
        vstd::arithmetic::div_mod::lemma_mod_multiples_vanish(-6, x, 2);
    }
    vstd::arithmetic::div_mod::lemma_fundamental_div_mod(x - 12, 2);
    vstd::arithmetic::div_mod::lemma_div_is_ordered(26, x - 12, 2);
}

/// For even `x >= 10`: the extents produced by `forward_b`.
proof fn lemma_even_down(x: int)
    requires
        x % 2 == 0,
        x >= 10,
    ensures
        (x - 2) / 2 + 1 == x / 2,
        x / 2 - 4 == (x - 8) / 2,
        x / 2 >= 5,
        2 * (x / 2) == x,
        (x - 8) % 2 == 0,
        (x - 8) / 2 == (x - 8) as nat as int / 2,
{
    vstd::arithmetic::div_mod::lemma_hoist_over_denominator(x - 2, 1, 2);
    vstd::arithmetic::div_mod::lemma_hoist_over_denominator(x - 8, 4, 2);
    assert((2 * (-4) + x) % 2 == x % 2) by {
        vstd::arithmetic::div_mod::lemma_mod_multiples_vanish(-4, x, 2);
    }
    vstd::arithmetic::div_mod::lemma_fundamental_div_mod(x, 2);
    vstd::arithmetic::div_mod::lemma_div_is_ordered(10, x, 2);
}

/// For even nonnegative `x`: doubling the half gives `x` back.
proof fn lemma_even_up(x: int)
    requires
        x % 2 == 0,
        x >= 0,
    ensures
        2 * (x / 2) == x,
        x / 2 >= 0,
        x >= 6 ==> x / 2 >= 3,
{
    vstd::arithmetic::div_mod::lemma_fundamental_div_mod(x, 2);
    vstd::arithmetic::div_mod::lemma_mod_bound(x, 2);
}

/// For `x >= 44` divisible by 4: the chained extents of the full pass are
/// even and large enough for every block.
proof fn lemma_mod4_steps(x: int)
    requires
        x % 4 == 0,
        x >= 44,
    ensures
        x % 2 == 0,
        (x - 12) / 2 % 2 == 0,
        (x - 12) / 2 >= 16,
        ((x - 12) / 2 - 8) % 2 == 0,
        (x - 12) / 2 - 8 >= 6,
        (x - 36) % 2 == 0,
        x - 36 >= 4,
        (x - 12) / 2 - 8 == x / 2 - 14,
        2 * ((x - 12) / 2) == x - 12,
        ((x - 12) / 2 - 8) / 2 == ((x - 12) / 2 - 8) / 2,
        (x - 36) / 2 == (x - 12) / 2 - 12,
{
    let q = x / 4;
    vstd::arithmetic::div_mod::lemma_fundamental_div_mod(x, 4);
    assert(x == 4 * q);
    assert(4 * q == 2 * (2 * q)) by (nonlinear_arith);
    assert(x % 2 == 0) by {
        vstd::arithmetic::div_mod::lemma_mod_multiples_basic(2 * q, 2);
    }
    assert((2 * (-6) + x) % 2 == x % 2) by {
        vstd::arithmetic::div_mod::lemma_mod_multiples_vanish(-6, x, 2);
    }
    vstd::arithmetic::div_mod::lemma_fundamental_div_mod(x - 12, 2);
    assert((x - 12) / 2 == 2 * q - 6);
    assert((2 * q - 6) % 2 == 0) by {
        assert(2 * q - 6 == 2 * (q - 3)) by (nonlinear_arith);
        vstd::arithmetic::div_mod::lemma_mod_multiples_basic(q - 3, 2);
    }
    assert((2 * (-4) + (x - 12) / 2) % 2 == ((x - 12) / 2) % 2) by {
        vstd::arithmetic::div_mod::lemma_mod_multiples_vanish(-4, (x - 12) / 2, 2);
    }
    assert((2 * (-18) + x) % 2 == x % 2) by {
        vstd::arithmetic::div_mod::lemma_mod_multiples_vanish(-18, x, 2);
    }
    vstd::arithmetic::div_mod::lemma_hoist_over_denominator(x - 36, 12, 2);
    vstd::arithmetic::div_mod::lemma_hoist_over_denominator(x - 12, 6, 2);
    vstd::arithmetic::div_mod::lemma_hoist_over_denominator(x, -14, 2);
    vstd::arithmetic::div_mod::lemma_fundamental_div_mod(x, 2);
}

} // verus!
