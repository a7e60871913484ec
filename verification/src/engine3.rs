//! The 3x engine and the scale dispatcher.
//!
//! The 3x network shares both stages with the 2x engine; only the stage-A
//! output head differs (a stride-3 transposed convolution), the reflected
//! margin is 14 samples, and the padded extents round to multiples of 4.
//! Tiled execution runs the same five-pass sweep as the 2x engine, with
//! windows of `tile + 28` and output regions at three times the tile
//! coordinates.  At this scale the refinement stage's two downsamplings need
//! the upscaled extent divisible by 4, so the tile size must be a multiple
//! of 4; any other value is a configuration error rejected at construction.

use vstd::prelude::*;

use crate::engine::{denorm_bits, sweep_ctx, tiled_bits, EngineModel, TileCtx, TiledSweep,
    UpCunet2x, MAX_EXTENT};
use crate::errors::{cvt, CuganError};
use crate::grid::{mk_dims, narrow_bits, with_axis, Grid};
use crate::pad::{pad_bits, pad_edge};
use crate::tensor_ops::{add_bits, add_t, bdiv_t, bmax_t, bmin_t, bmul_t, bsub_t, clone_tensor,
    dims4, dims4_ok, int_scalar_like, narrow, round_t, tensor_bits, tensor_dims, WeightSource};
use crate::tiling::{padded_extent, tile_count};
use crate::unet1::UNet1;
use crate::unet2::UNet2;
use crate::unet_conv::ConvBottom;

verus! {

broadcast use vstd::arithmetic::div_mod::lemma_div_basics_2;

/// The 3x engine: the two stages, the post-scale scalar, and the tiling
/// configuration.
pub struct UpCunet3x {
    pub unet1: UNet1,
    pub unet2: UNet2,
    pub alpha: candle_core::Tensor,
    pub tile_size: Option<usize>,
    pub use_cache: bool,
    pub in_channels: usize,
    pub out_channels: usize,
}

impl UpCunet3x {
    pub open spec fn wf(self) -> bool {
        &&& self.unet1.wf()
        &&& self.unet1.in_channels == self.in_channels
        &&& self.unet1.out_channels == self.out_channels
        &&& self.unet1.for_x3
        &&& self.unet1.conv_bottom is Deconv
        &&& self.unet1.conv2.seblock is Some
        &&& self.unet2.wf()
        &&& self.unet2.in_channels == self.in_channels
        &&& self.unet2.out_channels == self.out_channels
        &&& self.unet2.conv_bottom is Else
        &&& self.in_channels == self.out_channels
        &&& self.in_channels >= 1
        &&& tensor_dims(self.alpha) == mk_dims(1, 1, 1, 1)
        &&& match self.tile_size {
            Some(t) => 4 <= t <= MAX_EXTENT && t % 4 == 0,
            None => true,
        }
    }

    /// What the output depends on: the stages and the scalar's contents, not
    /// the caching flag.
    pub open spec fn model(self) -> EngineModel {
        EngineModel { unet1: self.unet1, unet2: self.unet2, alpha: tensor_bits(self.alpha) }
    }

    /// The tile grid a tiled call on `x` uses.
    pub open spec fn tiled_ctx(self, x: candle_core::Tensor, tile: nat) -> TileCtx {
        sweep_ctx(x, tile, 3)
    }

    /// Contents of whole-image 3x inference on `x`.
    pub open spec fn whole_bits(self, x: candle_core::Tensor) -> Grid {
        let d = tensor_dims(x);
        let n = d[0];
        let h0 = d[2];
        let w0 = d[3];
        let ph = crate::tiling::padded_extent_spec(h0, 4);
        let pw = crate::tiling::padded_extent_spec(w0, 4);
        let g1 = pad_bits(tensor_bits(x), d, 3, 14, 14 + pw - w0);
        let g2 = pad_bits(g1, with_axis(d, 3, (pw + 28) as nat), 2, 14, 14 + ph - h0);
        let u1 = self.unet1.fwd_bits(g2, n, (ph + 28) as nat, (pw + 28) as nat);
        let x0 = self.unet2.fwd_bits(u1, n, (3 * ph + 40) as nat, (3 * pw + 40) as nat);
        let crop = narrow_bits(
            narrow_bits(
                u1,
                mk_dims(n, d[1], (3 * ph + 40) as nat, (3 * pw + 40) as nat),
                3,
                20,
                (3 * pw) as nat,
            ),
            mk_dims(n, d[1], (3 * ph + 40) as nat, (3 * pw) as nat),
            2,
            20,
            (3 * ph) as nat,
        );
        let sum = add_bits(x0, crop);
        let trimmed = if ph == h0 && pw == w0 {
            sum
        } else {
            narrow_bits(
                narrow_bits(
                    sum,
                    mk_dims(n, d[1], (3 * ph) as nat, (3 * pw) as nat),
                    3,
                    0,
                    (3 * w0) as nat,
                ),
                mk_dims(n, d[1], (3 * ph) as nat, (3 * w0) as nat),
                2,
                0,
                (3 * h0) as nat,
            )
        };
        denorm_bits(trimmed)
    }

    /// Contents of one call of the engine on `x`: the tiled sweep when a tile
    /// size is configured, whole-image inference otherwise.
    pub open spec fn out_bits(self, x: candle_core::Tensor) -> Grid {
        match self.tile_size {
            Some(t) => tiled_bits(
                self.model(),
                self.tiled_ctx(x, t as nat),
                tensor_dims(x)[2],
                tensor_dims(x)[3],
            ),
            None => self.whole_bits(x),
        }
    }

    /// `x` is an input the engine accepts.
    pub open spec fn accepts_input(self, x: candle_core::Tensor) -> bool {
        &&& tensor_dims(x).len() == 4
        &&& tensor_dims(x)[0] >= 1
        &&& tensor_dims(x)[1] == self.in_channels
        &&& 1 <= tensor_dims(x)[2] <= MAX_EXTENT
        &&& 1 <= tensor_dims(x)[3] <= MAX_EXTENT
    }

    /// Builds the 3x engine.  A tile size that is zero, not a multiple of 4
    /// (odd sizes included), or oversized is a configuration error, rejected
    /// before any weight is loaded.
    #[verifier::spinoff_prover]
    pub fn new(
        in_channels: usize,
        out_channels: usize,
        alpha: &candle_core::Tensor,
        tile_size: Option<usize>,
        use_cache: bool,
        vb: &WeightSource,
    ) -> (r: Result<UpCunet3x, CuganError>)
        ensures
            match r {
                Ok(m) => {
                    &&& m.wf()
                    &&& m.in_channels == in_channels
                    &&& m.out_channels == out_channels
                    &&& m.tile_size == tile_size
                    &&& m.use_cache == use_cache
                    &&& tensor_bits(m.alpha) == tensor_bits(*alpha)
                    &&& tensor_bits(m.unet2.alpha) == tensor_bits(*alpha)
                },
                Err(_) => true,
            },
            (match tile_size {
                Some(t) => t == 0 || t % 4 != 0 || t > MAX_EXTENT,
                None => false,
            }) <==> r matches Err(CuganError::InvalidTileSize),

    {
        if let Some(t) = tile_size {
            if t == 0 || t % 4 != 0 || t > MAX_EXTENT {
                return Err(CuganError::InvalidTileSize);
            }
        }
        if in_channels != out_channels || in_channels == 0 {
            return Err(CuganError::InvalidInput);
        }
        let (a0, a1, a2, a3) = match dims4(alpha) {
            Ok(d) => d,
            Err(_) => {
                proof {
                    assert(!(tensor_dims(*alpha) =~= mk_dims(1, 1, 1, 1)));
                }
                return Err(CuganError::InvalidInput);
            },
        };
        if a0 != 1 || a1 != 1 || a2 != 1 || a3 != 1 {
            proof {
                assert(!(tensor_dims(*alpha) =~= mk_dims(1, 1, 1, 1)));
            }
            return Err(CuganError::InvalidInput);
        }
        proof {
            assert(tensor_dims(*alpha) =~= mk_dims(1, 1, 1, 1));
        }
        let unet1 = UNet1::new(in_channels, out_channels, true, true, &vb.pp("unet1"))?;
        let unet2 = UNet2::new(in_channels, out_channels, false, alpha, &vb.pp("unet2"))?;
        Ok(
            UpCunet3x {
                unet1,
                unet2,
                alpha: clone_tensor(alpha),
                tile_size,
                use_cache,
                in_channels,
                out_channels,
            },
        )
    }

    /// The tiled sweep at 3x: the same five passes as the 2x engine, with
    /// 14-sample margins, `tile + 28` windows, and output regions at three
    /// times the tile coordinates.
    #[verifier::spinoff_prover]
    pub fn forward_tile(&self, x: &candle_core::Tensor, tile_size: usize) -> (r: Result<
        candle_core::Tensor,
        CuganError,
    >)
        requires
            self.wf(),
            tile_size % 4 == 0,
            4 <= tile_size <= MAX_EXTENT,
        ensures
            match r {
                Ok(y) => {
                    &&& self.accepts_input(*x)
                    &&& tensor_dims(y) == mk_dims(
                        tensor_dims(*x)[0],
                        self.out_channels as nat,
                        (3 * tensor_dims(*x)[2]) as nat,
                        (3 * tensor_dims(*x)[3]) as nat,
                    )
                    &&& tensor_bits(y) == tiled_bits(
                        self.model(),
                        self.tiled_ctx(*x, tile_size as nat),
                        tensor_dims(*x)[2],
                        tensor_dims(*x)[3],
                    )
                },
                Err(_) => true,
            },
            (tensor_dims(*x).len() != 4 || tensor_dims(*x)[1] != self.in_channels) <==> r matches Err(
                CuganError::ShapeMismatch,
            ),
    {
        let (n0, c0, h0, w0) = match dims4(x) {
            Ok(d) => d,
            Err(_) => {
                return Err(CuganError::ShapeMismatch);
            },
        };
        if c0 != self.in_channels {
            return Err(CuganError::ShapeMismatch);
        }
        if n0 == 0 || h0 == 0 || w0 == 0 || h0 > MAX_EXTENT || w0 > MAX_EXTENT {
            return Err(CuganError::InvalidInput);
        }
        let ht = tile_count(h0, tile_size);
        let wt = tile_count(w0, tile_size);
        proof {
            crate::tiling::lemma_padded_extent(h0 as nat, tile_size as nat);
            crate::tiling::lemma_padded_extent(w0 as nat, tile_size as nat);
            vstd::arithmetic::div_mod::lemma_div_nonincreasing((h0 - 1) as int, tile_size as int);
            vstd::arithmetic::div_mod::lemma_div_nonincreasing((w0 - 1) as int, tile_size as int);
            vstd::arithmetic::div_mod::lemma_div_pos_is_pos((h0 - 1) as int, tile_size as int);
            vstd::arithmetic::div_mod::lemma_div_pos_is_pos((w0 - 1) as int, tile_size as int);
        }
        let ph = ht * tile_size;
        let pw = wt * tile_size;
        let ghost ctx = self.tiled_ctx(*x, tile_size as nat);
        let p1 = pad_edge(x, 3, 14, 14 + pw - w0)?;
        let px = pad_edge(&p1, 2, 14, 14 + ph - h0)?;
        let sweep = TiledSweep {
            unet1: &self.unet1,
            unet2: &self.unet2,
            alpha: &self.alpha,
            use_cache: self.use_cache,
            in_channels: self.in_channels,
            out_channels: self.out_channels,
            scale: 3,
        };
        proof {
            assert(ctx.scale == 3 && ctx.margin() == 14);
            assert(tile_size % 2 == 0) by {
                vstd::arithmetic::div_mod::lemma_fundamental_div_mod(tile_size as int, 4);
                let q = tile_size as int / 4;
                assert(4 * q == 2 * (2 * q)) by (nonlinear_arith);
                vstd::arithmetic::div_mod::lemma_mod_multiples_basic(2 * q, 2);
            }
            assert(ctx.ht == ht && ctx.wt == wt && ctx.tile == tile_size && ctx.n == n0 as nat
                && ctx.c == c0 as nat);
            assert(tensor_dims(p1) =~= with_axis(
                tensor_dims(*x),
                3,
                (ctx.wt * ctx.tile + 28) as nat,
            ));
            assert(tensor_bits(px) == ctx.g);
            assert(tensor_dims(px) =~= mk_dims(ctx.n, ctx.c, ctx.hh(), ctx.ww()));
            assert(ctx.wf());
            assert(sweep.wf());
            assert(sweep.model() == self.model());
            assert(sweep.ctx_inv(px, ctx));
        }
        let (acc0, cache) = sweep.pass1(&px, tile_size, ht, wt, Ghost(ctx))?;
        proof {
            assert(ht as int * wt as int <= 40000 * 40000) by (nonlinear_arith)
                requires
                    1 <= ht <= 40000,
                    1 <= wt <= 40000,
            ;
        }
        let tn = ht * wt;
        proof {
            assert(tn as int == ctx.t_count() as int);
        }
        let scal = cvt(int_scalar_like(&px, tn as i64))?;
        let gm0 = cvt(bdiv_t(&acc0, &scal))?;
        let (acc1, cache) = sweep.pass2(&px, tile_size, ht, wt, cache, &gm0, Ghost(ctx))?;
        let gm1 = cvt(bdiv_t(&acc1, &scal))?;
        let (acc2, cache) = sweep.pass3(&px, tile_size, ht, wt, cache, &gm0, &gm1, Ghost(ctx))?;
        let gm2 = cvt(bdiv_t(&acc2, &scal))?;
        let (acc3, cache) = sweep.pass4(
            &px,
            tile_size,
            ht,
            wt,
            cache,
            &gm0,
            &gm1,
            &gm2,
            Ghost(ctx),
        )?;
        let gm3 = cvt(bdiv_t(&acc3, &scal))?;
        let res = sweep.pass5(
            &px,
            tile_size,
            ht,
            wt,
            cache,
            &gm0,
            &gm1,
            &gm2,
            &gm3,
            Ghost(ctx),
        )?;
        if h0 != ph || w0 != pw {
            proof {
                assert(3 * (ctx.wt * ctx.tile) == ctx.buf_w()) by (nonlinear_arith)
                    requires
                        ctx.scale == 3,
                        ctx.buf_w() == ctx.scale * (ctx.wt * ctx.tile),
                ;
                assert(3 * (ctx.ht * ctx.tile) == ctx.buf_h()) by (nonlinear_arith)
                    requires
                        ctx.scale == 3,
                        ctx.buf_h() == ctx.scale * (ctx.ht * ctx.tile),
                ;
                assert((ctx.scale * (w0 as nat)) as nat == (3 * w0) as nat) by (nonlinear_arith)
                    requires
                        ctx.scale == 3,
                ;
                assert((ctx.scale * (h0 as nat)) as nat == (3 * h0) as nat) by (nonlinear_arith)
                    requires
                        ctx.scale == 3,
                ;
            }
            let r1 = narrow(&res, 3, 0, 3 * w0);
            let r2 = narrow(&r1, 2, 0, 3 * h0);
            proof {
                assert(with_axis(
                    mk_dims(ctx.n, ctx.c, ctx.buf_h(), ctx.buf_w()),
                    3,
                    (3 * w0) as nat,
                ) =~= mk_dims(ctx.n, ctx.c, ctx.buf_h(), (3 * w0) as nat));
                assert(tensor_dims(r2) =~= mk_dims(
                    ctx.n,
                    self.out_channels as nat,
                    (3 * h0) as nat,
                    (3 * w0) as nat,
                ));
            }
            Ok(r2)
        } else {
            proof {
                assert(ctx.buf_h() == (3 * h0) as nat) by (nonlinear_arith)
                    requires
                        ctx.ht * ctx.tile == h0 as nat,
                        ctx.scale == 3,
                        ctx.buf_h() == ctx.scale * (ctx.ht * ctx.tile),
                ;
                assert(ctx.buf_w() == (3 * w0) as nat) by (nonlinear_arith)
                    requires
                        ctx.wt * ctx.tile == w0 as nat,
                        ctx.scale == 3,
                        ctx.buf_w() == ctx.scale * (ctx.wt * ctx.tile),
                ;
                assert(tensor_dims(res) =~= mk_dims(
                    ctx.n,
                    self.out_channels as nat,
                    (3 * h0) as nat,
                    (3 * w0) as nat,
                ));
            }
            Ok(res)
        }
    }

    /// One engine call: the tiled sweep when a tile size is configured,
    /// whole-image inference otherwise.
    #[verifier::spinoff_prover]
    pub fn forward(&self, x: &candle_core::Tensor) -> (r: Result<candle_core::Tensor, CuganError>)
        requires
            self.wf(),
        ensures
            match r {
                Ok(y) => {
                    &&& self.accepts_input(*x)
                    &&& tensor_dims(y) == mk_dims(
                        tensor_dims(*x)[0],
                        self.out_channels as nat,
                        (3 * tensor_dims(*x)[2]) as nat,
                        (3 * tensor_dims(*x)[3]) as nat,
                    )
                    &&& tensor_bits(y) == self.out_bits(*x)
                },
                Err(_) => true,
            },
            (tensor_dims(*x).len() != 4 || tensor_dims(*x)[1] != self.in_channels) <==> r matches Err(
                CuganError::ShapeMismatch,
            ),
    {
        if let Some(ts) = self.tile_size {
            return self.forward_tile(x, ts);
        }
        let (n0, c0, h0, w0) = match dims4(x) {
            Ok(d) => d,
            Err(_) => {
                return Err(CuganError::ShapeMismatch);
            },
        };
        if c0 != self.in_channels {
            return Err(CuganError::ShapeMismatch);
        }
        if n0 == 0 || h0 == 0 || w0 == 0 || h0 > MAX_EXTENT || w0 > MAX_EXTENT {
            return Err(CuganError::InvalidInput);
        }
        let ph = padded_extent(h0, 4);
        let pw = padded_extent(w0, 4);
        let p1 = pad_edge(x, 3, 14, 14 + pw - w0)?;
        let px = pad_edge(&p1, 2, 14, 14 + ph - h0)?;
        let ghost d0 = tensor_dims(*x);
        proof {
            assert(tensor_dims(p1) =~= with_axis(d0, 3, (pw + 28) as nat));
            assert(tensor_dims(px) =~= mk_dims(
                n0 as nat,
                c0 as nat,
                (ph + 28) as nat,
                (pw + 28) as nat,
            ));
            lemma_x3_arith(ph as int);
            lemma_x3_arith(pw as int);
        }
        let u1 = self.unet1.forward(&px)?;
        proof {
            assert(match self.unet1.conv_bottom {
                ConvBottom::Deconv(mm) => crate::tensor_ops::convt2d_geom(mm).stride == 3
                    && crate::tensor_ops::convt2d_geom(mm).k == 5,
                ConvBottom::Else(_) => false,
            });
            assert(self.unet1.out_extent((ph + 28) as nat) == (3 * ph + 40) as nat);
            assert(self.unet1.out_extent((pw + 28) as nat) == (3 * pw + 40) as nat);
            assert(tensor_dims(u1) =~= mk_dims(
                n0 as nat,
                self.in_channels as nat,
                (3 * ph + 40) as nat,
                (3 * pw + 40) as nat,
            ));
        }
        let x0 = self.unet2.forward(&u1)?;
        proof {
            assert(self.unet2.out_extent((3 * ph + 40) as nat) == (3 * ph) as nat);
            assert(self.unet2.out_extent((3 * pw + 40) as nat) == (3 * pw) as nat);
        }
        let (_, _, uh, uw) = dims4_ok(&u1);
        let cr1 = narrow(&u1, 3, 20, uw - 40);
        let crop = narrow(&cr1, 2, 20, uh - 40);
        let ghost g2 = pad_bits(
            pad_bits(tensor_bits(*x), d0, 3, 14, 14 + pw - w0),
            with_axis(d0, 3, (pw + 28) as nat),
            2,
            14,
            14 + ph - h0,
        );
        proof {
            assert(tensor_bits(px) == g2);
            assert(with_axis(
                mk_dims(d0[0], d0[1], (3 * ph + 40) as nat, (3 * pw + 40) as nat),
                3,
                (3 * pw) as nat,
            ) =~= mk_dims(d0[0], d0[1], (3 * ph + 40) as nat, (3 * pw) as nat));
            assert(tensor_dims(crop) =~= tensor_dims(x0));
        }
        let summed = cvt(add_t(&x0, &crop))?;
        proof {
            assert(tensor_dims(summed) =~= mk_dims(d0[0], d0[1], (3 * ph) as nat, (3
                * pw) as nat));
        }
        let mut out = summed;
        if h0 != ph || w0 != pw {
            proof {
                assert(with_axis(
                    mk_dims(d0[0], d0[1], (3 * ph) as nat, (3 * pw) as nat),
                    3,
                    (3 * w0) as nat,
                ) =~= mk_dims(d0[0], d0[1], (3 * ph) as nat, (3 * w0) as nat));
            }
            let a = narrow(&out, 3, 0, 3 * w0);
            let b = narrow(&a, 2, 0, 3 * h0);
            out = b;
        }
        let off0 = cvt(int_scalar_like(x, 3))?;
        let off1 = cvt(int_scalar_like(x, 20))?;
        let off = cvt(bdiv_t(&off0, &off1))?;
        let gain0 = cvt(int_scalar_like(x, 2550))?;
        let gain1 = cvt(int_scalar_like(x, 7))?;
        let gain = cvt(bdiv_t(&gain0, &gain1))?;
        let lo = cvt(int_scalar_like(x, 0))?;
        let hi = cvt(int_scalar_like(x, 255))?;
        let dd = cvt(bsub_t(&out, &off))?;
        let gg = cvt(bmul_t(&dd, &gain))?;
        let rd = cvt(round_t(&gg))?;
        let fl = cvt(bmax_t(&rd, &lo))?;
        let y = cvt(bmin_t(&fl, &hi))?;
        proof {
            assert(tensor_bits(y) == self.whole_bits(*x));
            assert(tensor_dims(y) =~= mk_dims(
                n0 as nat,
                self.out_channels as nat,
                (3 * h0) as nat,
                (3 * w0) as nat,
            ));
        }
        Ok(y)
    }
}

/// Cache invariance at 3x: as at 2x, the tiled result is a function of the
/// model, the tile grid, and the trim extents alone — two engines that differ
/// only in the caching flag produce the same contents.
pub proof fn lemma_cache_invariance_x3(a: UpCunet3x, b: UpCunet3x, ctx: TileCtx, h0: nat, w0: nat)
    requires
        a.unet1 == b.unet1,
        a.unet2 == b.unet2,
        tensor_bits(a.alpha) == tensor_bits(b.alpha),
    ensures
        tiled_bits(a.model(), ctx, h0, w0) == tiled_bits(b.model(), ctx, h0, w0),
{
    assert(a.model() == b.model());
}

/// For a padded extent divisible by 4 and at least 4, the 3x pipeline's
/// intermediate extents are even, divisible by 4 where stage B needs it, and
/// large enough for every block.
proof fn lemma_x3_arith(ph: int)
    requires
        ph >= 4,
        ph % 4 == 0,
    ensures
        (ph + 28) % 2 == 0,
        ph + 28 >= 32,
        (3 * ph + 40) % 4 == 0,
        3 * ph + 40 >= 52,
        (3 * ph + 40) - 40 == 3 * ph,
{
    let q = ph / 4;
    vstd::arithmetic::div_mod::lemma_fundamental_div_mod(ph, 4);
    assert(ph == 4 * q);
    assert(ph == 2 * (2 * q)) by (nonlinear_arith)
        requires
            ph == 4 * q,
    ;
    assert((2 * (2 * q) + 28) % 2 == 0) by {
        vstd::arithmetic::div_mod::lemma_mod_multiples_vanish(2 * q + 14, 0, 2);
        assert(2 * (2 * q + 14) + 0 == 2 * (2 * q) + 28) by (nonlinear_arith);
        vstd::arithmetic::div_mod::lemma_mod_multiples_basic(2 * q + 14, 2);
    }
    assert(3 * ph + 40 == 4 * (3 * q + 10)) by (nonlinear_arith)
        requires
            ph == 4 * q,
    ;
    assert((4 * (3 * q + 10)) % 4 == 0) by {
        vstd::arithmetic::div_mod::lemma_mod_multiples_basic(3 * q + 10, 4);
    }
}

/// The model at either scale.
pub enum RealCugan {
    X2(UpCunet2x),
    X3(UpCunet3x),
}

impl RealCugan {
    pub open spec fn wf(self) -> bool {
        match self {
            RealCugan::X2(m) => m.wf(),
            RealCugan::X3(m) => m.wf(),
        }
    }

    /// The upscale ratio.
    pub open spec fn scale(self) -> nat {
        match self {
            RealCugan::X2(_) => 2,
            RealCugan::X3(_) => 3,
        }
    }

    pub open spec fn out_channels(self) -> nat {
        match self {
            RealCugan::X2(m) => m.out_channels as nat,
            RealCugan::X3(m) => m.out_channels as nat,
        }
    }

    /// Contents of one call at either scale.
    pub open spec fn out_bits(self, x: candle_core::Tensor) -> Grid {
        match self {
            RealCugan::X2(m) => m.out_bits(x),
            RealCugan::X3(m) => m.out_bits(x),
        }
    }

    /// Runs the configured engine: the output is the input upscaled by the
    /// configured ratio.
    pub fn forward(&self, x: &candle_core::Tensor) -> (r: Result<candle_core::Tensor, CuganError>)
        requires
            self.wf(),
        ensures
            match r {
                Ok(y) => {
                    &&& tensor_dims(*x).len() == 4
                    &&& tensor_dims(y) == mk_dims(
                        tensor_dims(*x)[0],
                        self.out_channels(),
                        (self.scale() * tensor_dims(*x)[2]) as nat,
                        (self.scale() * tensor_dims(*x)[3]) as nat,
                    )
                    &&& tensor_bits(y) == self.out_bits(*x)
                },
                Err(_) => true,
            },
    {
        match self {
            RealCugan::X2(m) => m.forward(x),
            RealCugan::X3(m) => m.forward(x),
        }
    }
}

} // verus!
