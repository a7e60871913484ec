//! The tiled inference engine.
//!
//! The engine runs the staged network either on the whole (reflect-padded)
//! image at once, or tile by tile in five sequential passes; the sweep is
//! shared between the 2x and 3x scales, which differ only in the context
//! margin (18 or 14 samples), the stage-A output head, and the upsampled
//! output coordinates.  Each SE gate
//! needs a whole-image spatial mean, which one tile cannot supply, so each
//! pass accumulates every tile's local mean into a running sum and the next
//! pass gates with the accumulated mean divided by the tile count.  The
//! output contract of the tiled pass is phrased over the model and the padded
//! input alone — in particular it does not mention the caching flag, which is
//! the cache-invariance guarantee: caching only trades memory for
//! recomputation.

use vstd::prelude::*;

use crate::errors::{cvt, CuganError};
use crate::grid::{mk_dims, narrow_bits, with_axis, zero_bits, Grid};
use crate::pad::pad_bits;
use crate::se_block::SeBlock;
use crate::tensor_ops::{add_bits, add_t, bdiv_bits, bdiv_t, bmax_bits, bmax_t, bmin_bits, bmin_t,
    bmul_bits, bmul_t, clone_tensor,
    dims4, dims4_ok, int_scalar_like, mean23_bits, mean23_t, narrow, round_bits, round_t,
    scalar_bits, slice_assign4, bsub_bits, bsub_t, tensor_bits, tensor_dims, zeros_like4,
    WeightSource};
use crate::tiling::{padded_extent, tile_count};
use crate::unet1::UNet1;
use crate::unet2::UNet2;
use crate::unet_conv::ConvBottom;

verus! {

broadcast use vstd::arithmetic::div_mod::lemma_div_basics_2;

/// Extents are capped so every coordinate computation fits in usize,
/// whatever its width.
pub const MAX_EXTENT: usize = 40000;

/// Contents of the 1x1x1x1 tensor holding the normalization offset 0.15,
/// computed as 3 / 20.
pub open spec fn offset_bits() -> Grid {
    bdiv_bits(scalar_bits(3), scalar_bits(20))
}

/// Contents of the 1x1x1x1 tensor holding the normalization gain 255 / 0.7,
/// computed as 2550 / 7.
pub open spec fn gain_bits() -> Grid {
    bdiv_bits(scalar_bits(2550), scalar_bits(7))
}

/// Contents of the 1x1x1x1 tensor holding the lower pixel bound 0.
pub open spec fn lo_bits() -> Grid {
    scalar_bits(0)
}

/// Contents of the 1x1x1x1 tensor holding the upper pixel bound 255.
pub open spec fn hi_bits() -> Grid {
    scalar_bits(255)
}

/// The inverse affine transform applied to a finished region, rounded and
/// clamped to the pixel range: `min(max(round((v - 0.15) * 255 / 0.7), 0), 255)`.
pub open spec fn denorm_bits(g: Grid) -> Grid {
    bmin_bits(
        bmax_bits(round_bits(bmul_bits(bsub_bits(g, offset_bits()), gain_bits())), lo_bits()),
        hi_bits(),
    )
}

/// Contents of the window of `s` rows and columns at (`i`, `j`) of a tensor
/// with contents `g` and dimensions (`n`, `c`, `hh`, `ww`).
pub open spec fn window_bits(
    g: Grid,
    n: nat,
    c: nat,
    hh: nat,
    ww: nat,
    i: int,
    j: int,
    s: nat,
) -> Grid {
    narrow_bits(
        narrow_bits(g, mk_dims(n, c, hh, ww), 2, i, s),
        mk_dims(n, c, s, ww),
        3,
        j,
        s,
    )
}

/// The SE block held by an optional slot (the engine only evaluates this
/// under the well-formedness fact that the slot is filled).
pub open spec fn sb_of(o: Option<SeBlock>) -> SeBlock {
    match o {
        Some(s) => s,
        None => vstd::pervasive::arbitrary(),
    }
}

/// What the tiled pass depends on: the two stages and the contents of the
/// post-scale scalar.  The caching flag is deliberately absent.
pub ghost struct EngineModel {
    pub unet1: UNet1,
    pub unet2: UNet2,
    pub alpha: Grid,
}

/// The tile grid of one tiled call: the padded input's contents and
/// dimensions, the upscale ratio, the tile size, and the grid extents.
pub ghost struct TileCtx {
    pub g: Grid,
    pub n: nat,
    pub c: nat,
    pub scale: nat,
    pub tile: nat,
    pub ht: nat,
    pub wt: nat,
}

impl TileCtx {
    /// The context margin reflected onto each edge: 18 samples at 2x, 14 at 3x.
    pub open spec fn margin(self) -> nat {
        if self.scale == 2 {
            18
        } else {
            14
        }
    }

    /// The tile size upscaled: the side of one finished output region.
    pub open spec fn st(self) -> nat {
        self.scale * self.tile
    }

    /// Extent of one tile's window: the tile plus context on both sides.
    pub open spec fn win_e(self) -> nat {
        self.tile + 2 * self.margin()
    }

    /// Extent of the stage-A skip tensor.
    pub open spec fn skip1_e(self) -> nat {
        (self.win_e() - 12) as nat
    }

    /// Extent of the feature entering SE gate 1.
    pub open spec fn pre1_e(self) -> nat {
        (self.skip1_e() as int / 2) as nat
    }

    /// Extent of the gated stage-A output.
    pub open spec fn opt_e(self) -> nat {
        self.st() + 40
    }

    /// Extent of the stage-B outer skip tensor.
    pub open spec fn x1_e(self) -> nat {
        self.st() + 4
    }

    /// Extent of the feature entering SE gate 2.
    pub open spec fn x2_e(self) -> nat {
        ((self.st() + 28) as int / 2) as nat
    }

    /// Extent of the trimmed gated stage-B skip.
    pub open spec fn x2n_e(self) -> nat {
        (self.x2_e() - 8) as nat
    }

    /// Extent of the feature entering SE gate 3.
    pub open spec fn x3_e(self) -> nat {
        (self.x2_e() as int / 2 - 4) as nat
    }

    /// Extent of the feature entering SE gate 4.
    pub open spec fn x4_e(self) -> nat {
        (self.x1_e() as int / 2) as nat
    }

    /// Extent of one finished output region.
    pub open spec fn out_e(self) -> nat {
        self.st()
    }

    /// Height of the output buffer: the padded rows, upscaled.
    pub open spec fn buf_h(self) -> nat {
        self.scale * (self.ht * self.tile)
    }

    /// Width of the output buffer.
    pub open spec fn buf_w(self) -> nat {
        self.scale * (self.wt * self.tile)
    }

    /// Height of the padded input: grid rows times tile size, plus context.
    pub open spec fn hh(self) -> nat {
        self.ht * self.tile + 2 * self.margin()
    }

    /// Width of the padded input.
    pub open spec fn ww(self) -> nat {
        self.wt * self.tile + 2 * self.margin()
    }

    /// Number of tiles.
    pub open spec fn t_count(self) -> nat {
        self.ht * self.wt
    }

    /// At 2x any even tile size aligns; at 3x the refinement stage's two
    /// downsamplings need the upscaled extent divisible by 4, so the tile
    /// size must be a multiple of 4.
    pub open spec fn wf(self) -> bool {
        &&& self.n >= 1
        &&& self.c >= 1
        &&& (self.scale == 2 || self.scale == 3)
        &&& self.tile >= 2
        &&& if self.scale == 2 {
            self.tile % 2 == 0
        } else {
            self.tile % 4 == 0
        }
        &&& self.tile <= MAX_EXTENT
        &&& 1 <= self.ht <= MAX_EXTENT
        &&& 1 <= self.wt <= MAX_EXTENT
        &&& self.ht * self.tile <= 2 * MAX_EXTENT
        &&& self.wt * self.tile <= 2 * MAX_EXTENT
    }

    /// Grid row of tile `t` in row-major order.
    pub open spec fn row(self, t: int) -> int {
        t / self.wt as int
    }

    /// Grid column of tile `t`.
    pub open spec fn col(self, t: int) -> int {
        t % self.wt as int
    }

    /// Top row of tile `t`'s window in the padded input.
    pub open spec fn i0(self, t: int) -> int {
        self.row(t) * self.tile
    }

    /// Left column of tile `t`'s window.
    pub open spec fn j0(self, t: int) -> int {
        self.col(t) * self.tile
    }

    /// Contents of tile `t`'s window.
    pub open spec fn win(self, t: int) -> Grid {
        window_bits(
            self.g,
            self.n,
            self.c,
            self.hh(),
            self.ww(),
            self.i0(t),
            self.j0(t),
            self.win_e(),
        )
    }
}

/// Contents of tile `t`'s cropped stage-A skip tensor (first pass).
pub open spec fn s1_tmp0(m: EngineModel, ctx: TileCtx, t: int) -> Grid {
    m.unet1.a_skip_bits(ctx.win(t), ctx.n, ctx.win_e(), ctx.win_e())
}

/// Contents of tile `t`'s feature entering SE gate 1 (first pass).
pub open spec fn s1_pre(m: EngineModel, ctx: TileCtx, t: int) -> Grid {
    m.unet1.a_pre_bits(ctx.win(t))
}

/// Running sum of the first `k` tiles' spatial means at gate 1.
pub open spec fn sum0(m: EngineModel, ctx: TileCtx, k: int) -> Grid
    decreases k,
{
    if k <= 0 {
        zero_bits(mk_dims(ctx.n, 64, 1, 1))
    } else {
        add_bits(sum0(m, ctx, k - 1), mean23_bits(s1_pre(m, ctx, k - 1)))
    }
}

/// The reconciled global mean at gate 1: the sum of every tile's local mean,
/// divided by the tile count.
pub open spec fn gmean0(m: EngineModel, ctx: TileCtx) -> Grid {
    bdiv_bits(sum0(m, ctx, ctx.t_count() as int), scalar_bits(ctx.t_count() as int))
}

/// Contents of tile `t`'s stage-A output, gated at gate 1 with the global
/// mean (second pass).
pub open spec fn s2_opt(m: EngineModel, ctx: TileCtx, t: int) -> Grid {
    m.unet1.b_bits(
        s1_tmp0(m, ctx, t),
        sb_of(m.unet1.conv2.seblock).gate_bits(s1_pre(m, ctx, t), gmean0(m, ctx)),
    )
}

/// Contents of tile `t`'s stage-B outer skip tensor (second pass).
pub open spec fn s2_x1(m: EngineModel, ctx: TileCtx, t: int) -> Grid {
    m.unet2.a_skip_bits(s2_opt(m, ctx, t), ctx.n, ctx.opt_e(), ctx.opt_e())
}

/// Contents of tile `t`'s feature entering SE gate 2 (second pass).
pub open spec fn s2_x2(m: EngineModel, ctx: TileCtx, t: int) -> Grid {
    m.unet2.a_pre_bits(s2_opt(m, ctx, t))
}

/// Running sum of the first `k` tiles' spatial means at gate 2.
pub open spec fn sum1(m: EngineModel, ctx: TileCtx, k: int) -> Grid
    decreases k,
{
    if k <= 0 {
        zero_bits(mk_dims(ctx.n, 128, 1, 1))
    } else {
        add_bits(sum1(m, ctx, k - 1), mean23_bits(s2_x2(m, ctx, k - 1)))
    }
}

/// The reconciled global mean at gate 2.
pub open spec fn gmean1(m: EngineModel, ctx: TileCtx) -> Grid {
    bdiv_bits(sum1(m, ctx, ctx.t_count() as int), scalar_bits(ctx.t_count() as int))
}

/// Contents of tile `t`'s gated, trimmed stage-B skip (third pass).
pub open spec fn s3_x2n(m: EngineModel, ctx: TileCtx, t: int) -> Grid {
    m.unet2.b_skip_bits(
        sb_of(m.unet2.conv2.seblock).gate_bits(s2_x2(m, ctx, t), gmean1(m, ctx)),
        ctx.n,
        ctx.x2_e(),
        ctx.x2_e(),
    )
}

/// Contents of tile `t`'s feature entering SE gate 3 (third pass).
pub open spec fn s3_x3(m: EngineModel, ctx: TileCtx, t: int) -> Grid {
    m.unet2.b_pre_bits(sb_of(m.unet2.conv2.seblock).gate_bits(s2_x2(m, ctx, t), gmean1(m, ctx)))
}

/// Running sum of the first `k` tiles' spatial means at gate 3.
pub open spec fn sum2(m: EngineModel, ctx: TileCtx, k: int) -> Grid
    decreases k,
{
    if k <= 0 {
        zero_bits(mk_dims(ctx.n, 128, 1, 1))
    } else {
        add_bits(sum2(m, ctx, k - 1), mean23_bits(s3_x3(m, ctx, k - 1)))
    }
}

/// The reconciled global mean at gate 3.
pub open spec fn gmean2(m: EngineModel, ctx: TileCtx) -> Grid {
    bdiv_bits(sum2(m, ctx, ctx.t_count() as int), scalar_bits(ctx.t_count() as int))
}

/// Contents of tile `t`'s feature entering SE gate 4, after the `alpha`
/// post-scale factor (fourth pass).
pub open spec fn s4_x4(m: EngineModel, ctx: TileCtx, t: int) -> Grid {
    bmul_bits(
        m.unet2.c_bits(
            s3_x2n(m, ctx, t),
            sb_of(m.unet2.conv3.seblock).gate_bits(s3_x3(m, ctx, t), gmean2(m, ctx)),
        ),
        m.alpha,
    )
}

/// Running sum of the first `k` tiles' spatial means at gate 4.
pub open spec fn sum3(m: EngineModel, ctx: TileCtx, k: int) -> Grid
    decreases k,
{
    if k <= 0 {
        zero_bits(mk_dims(ctx.n, 64, 1, 1))
    } else {
        add_bits(sum3(m, ctx, k - 1), mean23_bits(s4_x4(m, ctx, k - 1)))
    }
}

/// The reconciled global mean at gate 4.
pub open spec fn gmean3(m: EngineModel, ctx: TileCtx) -> Grid {
    bdiv_bits(sum3(m, ctx, ctx.t_count() as int), scalar_bits(ctx.t_count() as int))
}

/// Contents of tile `t`'s finished, denormalized output region (final pass):
/// stage B finished from the feature gated at gate 4, plus the cropped stage-A
/// skip, then the inverse affine transform and rounding.
pub open spec fn s5_tile(m: EngineModel, ctx: TileCtx, t: int) -> Grid {
    let opt = s2_opt(m, ctx, t);
    let x0 = m.unet2.d_bits(
        s2_x1(m, ctx, t),
        sb_of(m.unet2.conv4.seblock).gate_bits(s4_x4(m, ctx, t), gmean3(m, ctx)),
    );
    let crop = narrow_bits(
        narrow_bits(
            opt,
            mk_dims(ctx.n, ctx.c, ctx.opt_e(), ctx.opt_e()),
            3,
            20,
            ctx.out_e(),
        ),
        mk_dims(ctx.n, ctx.c, ctx.opt_e(), ctx.out_e()),
        2,
        20,
        ctx.out_e(),
    );
    denorm_bits(add_bits(x0, crop))
}

/// Contents of the output buffer after the first `k` tiles' regions are
/// written: each finished tile goes to its upsampled, non-overlapping slot.
pub open spec fn outbuf(m: EngineModel, ctx: TileCtx, k: int) -> Grid
    decreases k,
{
    let d = mk_dims(ctx.n, ctx.c, ctx.buf_h(), ctx.buf_w());
    if k <= 0 {
        zero_bits(d)
    } else {
        assign_at(m, ctx, outbuf(m, ctx, k - 1), k - 1)
    }
}

/// One tile's region written into the output buffer.
pub open spec fn assign_at(m: EngineModel, ctx: TileCtx, buf: Grid, t: int) -> Grid {
    crate::grid::assign_bits(
        buf,
        mk_dims(ctx.n, ctx.c, ctx.buf_h(), ctx.buf_w()),
        s5_tile(m, ctx, t),
        ctx.scale as int * ctx.i0(t),
        ctx.scale as int * ctx.j0(t),
        ctx.out_e(),
        ctx.out_e(),
    )
}

/// The grid row and column of tile `t` are within the grid, and its window
/// and upsampled output slot lie within their buffers.
pub proof fn lemma_rowcol(ctx: TileCtx, t: int)
    requires
        ctx.wf(),
        0 <= t < ctx.t_count(),
    ensures
        0 <= ctx.row(t) < ctx.ht,
        0 <= ctx.col(t) < ctx.wt,
        0 <= ctx.i0(t),
        0 <= ctx.j0(t),
        ctx.i0(t) + ctx.tile <= ctx.ht * ctx.tile,
        ctx.j0(t) + ctx.tile <= ctx.wt * ctx.tile,
{
    vstd::arithmetic::div_mod::lemma_div_pos_is_pos(t, ctx.wt as int);
    assert(ctx.wt as int * ctx.ht as int == ctx.ht * ctx.wt) by (nonlinear_arith);
    vstd::arithmetic::div_mod::lemma_multiply_divide_lt(t, ctx.wt as int, ctx.ht as int);
    vstd::arithmetic::div_mod::lemma_mod_bound(t, ctx.wt as int);
    crate::tiling::lemma_tile_interior_in_bounds(
        ctx.row(t) as nat,
        ctx.ht,
        ctx.tile,
    );
    crate::tiling::lemma_tile_interior_in_bounds(
        ctx.col(t) as nat,
        ctx.wt,
        ctx.tile,
    );
    assert(ctx.i0(t) >= 0 && ctx.j0(t) >= 0) by (nonlinear_arith)
        requires
            ctx.row(t) >= 0,
            ctx.col(t) >= 0,
            ctx.tile >= 2,
            ctx.i0(t) == ctx.row(t) * ctx.tile,
            ctx.j0(t) == ctx.col(t) * ctx.tile,
    ;
}

/// Parities, halved extents, and floors of the per-tile feature sizes, for
/// either scale's tile-size discipline.
pub proof fn lemma_sweep_arith(ctx: TileCtx)
    requires
        ctx.wf(),
    ensures
        ctx.win_e() % 2 == 0,
        ctx.win_e() >= 30,
        ctx.skip1_e() == ctx.win_e() - 12,
        ctx.skip1_e() % 2 == 0,
        ctx.skip1_e() >= 18,
        2 * ctx.pre1_e() == ctx.skip1_e(),
        ctx.st() % 4 == 0,
        ctx.st() >= 4,
        ctx.opt_e() % 2 == 0,
        ctx.opt_e() >= 44,
        (ctx.opt_e() - 12) as int / 2 == ctx.x2_e(),
        ctx.opt_e() - 36 == ctx.x1_e(),
        ctx.x2_e() % 2 == 0,
        ctx.x2_e() >= 16,
        ctx.x2n_e() % 2 == 0,
        ctx.x2n_e() >= 8,
        ctx.x2n_e() as int / 2 == ctx.x3_e(),
        ctx.x1_e() % 2 == 0,
        ctx.x1_e() >= 8,
        ctx.x2_e() - 12 == ctx.x4_e(),
        ctx.x1_e() - 4 == ctx.out_e(),
        ctx.out_e() == ctx.st(),
{
    let t = ctx.tile as int;
    if ctx.scale == 2 {
        let q = t / 2;
        vstd::arithmetic::div_mod::lemma_fundamental_div_mod(t, 2);
        assert(t == 2 * q);
        assert(ctx.st() == 2 * t) by (nonlinear_arith)
            requires
                ctx.scale == 2,
                ctx.st() == ctx.scale * ctx.tile,
                t == ctx.tile,
        ;
        assert(t + 24 == 2 * (q + 12)) by (nonlinear_arith)
            requires
                t == 2 * q,
        ;
        lemma_double_half(q + 12);
        assert(2 * t + 28 == 2 * (t + 14)) by (nonlinear_arith);
        lemma_double_half(t + 14);
        assert(t + 14 == 2 * (q + 7)) by (nonlinear_arith)
            requires
                t == 2 * q,
        ;
        lemma_double_half(q + 7);
        assert(t + 6 == 2 * (q + 3)) by (nonlinear_arith)
            requires
                t == 2 * q,
        ;
        lemma_double_half(q + 3);
        assert(2 * t + 4 == 2 * (t + 2)) by (nonlinear_arith);
        lemma_double_half(t + 2);
        assert(2 * t + 40 == 2 * (t + 20)) by (nonlinear_arith);
        lemma_double_half(t + 20);
        assert(2 * t == 4 * q) by (nonlinear_arith)
            requires
                t == 2 * q,
        ;
        lemma_mult_mod(q, 4);
        assert(q >= 1) by (nonlinear_arith)
            requires
                t == 2 * q,
                t >= 2,
        ;
    } else {
        let q = t / 4;
        vstd::arithmetic::div_mod::lemma_fundamental_div_mod(t, 4);
        assert(t == 4 * q);
        assert(ctx.st() == 3 * t) by (nonlinear_arith)
            requires
                ctx.scale == 3,
                ctx.st() == ctx.scale * ctx.tile,
                t == ctx.tile,
        ;
        assert(t + 16 == 2 * (2 * q + 8)) by (nonlinear_arith)
            requires
                t == 4 * q,
        ;
        lemma_double_half(2 * q + 8);
        assert(3 * t + 28 == 2 * (6 * q + 14)) by (nonlinear_arith)
            requires
                t == 4 * q,
        ;
        lemma_double_half(6 * q + 14);
        assert(6 * q + 14 == 2 * (3 * q + 7)) by (nonlinear_arith);
        lemma_double_half(3 * q + 7);
        assert(6 * q + 6 == 2 * (3 * q + 3)) by (nonlinear_arith);
        lemma_double_half(3 * q + 3);
        assert(3 * t + 4 == 2 * (6 * q + 2)) by (nonlinear_arith)
            requires
                t == 4 * q,
        ;
        lemma_double_half(6 * q + 2);
        assert(3 * t + 40 == 2 * (6 * q + 20)) by (nonlinear_arith)
            requires
                t == 4 * q,
        ;
        lemma_double_half(6 * q + 20);
        assert(3 * t == 4 * (3 * q)) by (nonlinear_arith)
            requires
                t == 4 * q,
        ;
        lemma_mult_mod(3 * q, 4);
        assert(q >= 1) by (nonlinear_arith)
            requires
                t == 4 * q,
                t >= 2,
        ;
        assert(ctx.win_e() == t + 28);
    }
}

/// `2 * x` halves back to `x`, is even, and is at least `2 * x`'s floor.
proof fn lemma_double_half(x: int)
    ensures
        (2 * x) / 2 == x,
        (2 * x) % 2 == 0,
{
    vstd::arithmetic::div_mod::lemma_div_multiples_vanish(x, 2);
    vstd::arithmetic::div_mod::lemma_mod_multiples_basic(x, 2);
}

/// `d * x` is divisible by `d`.
proof fn lemma_mult_mod(x: int, d: int)
    requires
        d > 0,
    ensures
        (d * x) % d == 0,
{
    vstd::arithmetic::div_mod::lemma_mod_multiples_basic(x, d);
    assert(d * x == x * d) by (nonlinear_arith);
}

/// Contents of the whole tiled result, after the padding overhang is trimmed
/// back to twice the original extents.
pub open spec fn tiled_bits(m: EngineModel, ctx: TileCtx, h0: nat, w0: nat) -> Grid {
    let full = outbuf(m, ctx, ctx.t_count() as int);
    if ctx.ht * ctx.tile == h0 && ctx.wt * ctx.tile == w0 {
        full
    } else {
        narrow_bits(
            narrow_bits(
                full,
                mk_dims(ctx.n, ctx.c, ctx.buf_h(), ctx.buf_w()),
                3,
                0,
                (ctx.scale * w0) as nat,
            ),
            mk_dims(ctx.n, ctx.c, ctx.buf_h(), (ctx.scale * w0) as nat),
            2,
            0,
            (ctx.scale * h0) as nat,
        )
    }
}

/// The 2x engine: the two stages, the post-scale scalar, and the tiling
/// configuration.
pub struct UpCunet2x {
    pub unet1: UNet1,
    pub unet2: UNet2,
    pub alpha: candle_core::Tensor,
    pub tile_size: Option<usize>,
    pub use_cache: bool,
    pub in_channels: usize,
    pub out_channels: usize,
}

impl UpCunet2x {
    pub open spec fn wf(self) -> bool {
        &&& self.unet1.wf()
        &&& self.unet1.in_channels == self.in_channels
        &&& self.unet1.out_channels == self.out_channels
        &&& !self.unet1.for_x3
        &&& self.unet1.conv_bottom is Deconv
        &&& self.unet1.conv2.seblock is Some
        &&& self.unet2.wf()
        &&& self.unet2.in_channels == self.in_channels
        &&& self.unet2.out_channels == self.out_channels
        &&& self.unet2.conv_bottom is Else
        &&& self.in_channels == self.out_channels
        &&& self.in_channels >= 1
        &&& tensor_dims(self.alpha) == mk_dims(1, 1, 1, 1)
        &&& match self.tile_size {
            Some(t) => 2 <= t <= MAX_EXTENT && t % 2 == 0,
            None => true,
        }
    }

    /// What the output depends on: the stages and the scalar's contents, not
    /// the caching flag.
    pub open spec fn model(self) -> EngineModel {
        EngineModel { unet1: self.unet1, unet2: self.unet2, alpha: tensor_bits(self.alpha) }
    }

    /// Builds the 2x engine.  An odd, zero, or oversized tile size is a
    /// configuration error, rejected before any weight is loaded.
    #[verifier::spinoff_prover]
    pub fn new(
        in_channels: usize,
        out_channels: usize,
        alpha: &candle_core::Tensor,
        tile_size: Option<usize>,
        use_cache: bool,
        vb: &WeightSource,
    ) -> (r: Result<UpCunet2x, CuganError>)
        ensures
            match r {
                Ok(m) => {
                    &&& m.wf()
                    &&& m.in_channels == in_channels
                    &&& m.out_channels == out_channels
                    &&& m.tile_size == tile_size
                    &&& m.use_cache == use_cache
                    &&& tensor_bits(m.alpha) == tensor_bits(*alpha)
                    &&& tensor_bits(m.unet2.alpha) == tensor_bits(*alpha)
                },
                Err(_) => true,
            },
            (match tile_size {
                Some(t) => t % 2 != 0 || t == 0 || t > MAX_EXTENT,
                None => false,
            }) <==> r matches Err(CuganError::InvalidTileSize),

    {
        if let Some(t) = tile_size {
            if t % 2 != 0 || t == 0 || t > MAX_EXTENT {
                return Err(CuganError::InvalidTileSize);
            }
        }
        if in_channels != out_channels || in_channels == 0 {
            return Err(CuganError::InvalidInput);
        }
        let (a0, a1, a2, a3) = match dims4(alpha) {
            Ok(d) => d,
            Err(_) => {
                proof {
                    assert(!(tensor_dims(*alpha) =~= mk_dims(1, 1, 1, 1)));
                }
                return Err(CuganError::InvalidInput);
            },
        };
        if a0 != 1 || a1 != 1 || a2 != 1 || a3 != 1 {
            proof {
                assert(!(tensor_dims(*alpha) =~= mk_dims(1, 1, 1, 1)));
            }
            return Err(CuganError::InvalidInput);
        }
        proof {
            assert(tensor_dims(*alpha) =~= mk_dims(1, 1, 1, 1));
        }
        let unet1 = UNet1::new(in_channels, out_channels, true, false, &vb.pp("unet1"))?;
        let unet2 = UNet2::new(in_channels, out_channels, false, alpha, &vb.pp("unet2"))?;
        Ok(
            UpCunet2x {
                unet1,
                unet2,
                alpha: clone_tensor(alpha),
                tile_size,
                use_cache,
                in_channels,
                out_channels,
            },
        )
    }

    /// The tile grid a tiled call on `x` uses.
    pub open spec fn tiled_ctx(self, x: candle_core::Tensor, tile: nat) -> TileCtx {
        sweep_ctx(x, tile, 2)
    }

    /// Contents of whole-image inference on `x`: pad, both stages with local
    /// SE means, the cropped stage-A skip added back, the overhang trimmed,
    /// and the inverse affine transform with rounding.
    pub open spec fn whole_bits(self, x: candle_core::Tensor) -> Grid {
        let d = tensor_dims(x);
        let n = d[0];
        let h0 = d[2];
        let w0 = d[3];
        let ph = crate::tiling::padded_extent_spec(h0, 2);
        let pw = crate::tiling::padded_extent_spec(w0, 2);
        let g1 = pad_bits(tensor_bits(x), d, 3, 18, 18 + pw - w0);
        let g2 = pad_bits(g1, with_axis(d, 3, (pw + 36) as nat), 2, 18, 18 + ph - h0);
        let u1 = self.unet1.fwd_bits(g2, n, (ph + 36) as nat, (pw + 36) as nat);
        let x0 = self.unet2.fwd_bits(u1, n, (2 * ph + 40) as nat, (2 * pw + 40) as nat);
        let crop = narrow_bits(
            narrow_bits(
                u1,
                mk_dims(n, d[1], (2 * ph + 40) as nat, (2 * pw + 40) as nat),
                3,
                20,
                (2 * pw) as nat,
            ),
            mk_dims(n, d[1], (2 * ph + 40) as nat, (2 * pw) as nat),
            2,
            20,
            (2 * ph) as nat,
        );
        let sum = add_bits(x0, crop);
        let trimmed = if ph == h0 && pw == w0 {
            sum
        } else {
            narrow_bits(
                narrow_bits(
                    sum,
                    mk_dims(n, d[1], (2 * ph) as nat, (2 * pw) as nat),
                    3,
                    0,
                    (2 * w0) as nat,
                ),
                mk_dims(n, d[1], (2 * ph) as nat, (2 * w0) as nat),
                2,
                0,
                (2 * h0) as nat,
            )
        };
        denorm_bits(trimmed)
    }

    /// Contents of one call of the engine on `x`: the tiled sweep when a tile
    /// size is configured, whole-image inference otherwise.
    pub open spec fn out_bits(self, x: candle_core::Tensor) -> Grid {
        match self.tile_size {
            Some(t) => tiled_bits(
                self.model(),
                self.tiled_ctx(x, t as nat),
                tensor_dims(x)[2],
                tensor_dims(x)[3],
            ),
            None => self.whole_bits(x),
        }
    }

    /// `x` is an input the engine accepts: rank 4, the declared channel
    /// count, and extents within the coordinate cap.
    pub open spec fn accepts_input(self, x: candle_core::Tensor) -> bool {
        &&& tensor_dims(x).len() == 4
        &&& tensor_dims(x)[0] >= 1
        &&& tensor_dims(x)[1] == self.in_channels
        &&& 1 <= tensor_dims(x)[2] <= MAX_EXTENT
        &&& 1 <= tensor_dims(x)[3] <= MAX_EXTENT
    }

    /// The tiled sweep: five passes over the tile grid, reconciling each SE
    /// gate's global mean between passes, then stitching and trimming.
    #[verifier::spinoff_prover]
    pub fn forward_tile(&self, x: &candle_core::Tensor, tile_size: usize) -> (r: Result<
        candle_core::Tensor,
        CuganError,
    >)
        requires
            self.wf(),
            tile_size % 2 == 0,
            2 <= tile_size <= MAX_EXTENT,
        ensures
            match r {
                Ok(y) => {
                    &&& self.accepts_input(*x)
                    &&& tensor_dims(y) == mk_dims(
                        tensor_dims(*x)[0],
                        self.out_channels as nat,
                        (2 * tensor_dims(*x)[2]) as nat,
                        (2 * tensor_dims(*x)[3]) as nat,
                    )
                    &&& tensor_bits(y) == tiled_bits(
                        self.model(),
                        self.tiled_ctx(*x, tile_size as nat),
                        tensor_dims(*x)[2],
                        tensor_dims(*x)[3],
                    )
                },
                Err(_) => true,
            },
            (tensor_dims(*x).len() != 4 || tensor_dims(*x)[1] != self.in_channels) <==> r matches Err(
                CuganError::ShapeMismatch,
            ),
    {
        let (n0, c0, h0, w0) = match dims4(x) {
            Ok(d) => d,
            Err(_) => {
                return Err(CuganError::ShapeMismatch);
            },
        };
        if c0 != self.in_channels {
            return Err(CuganError::ShapeMismatch);
        }
        if n0 == 0 || h0 == 0 || w0 == 0 || h0 > MAX_EXTENT || w0 > MAX_EXTENT {
            return Err(CuganError::InvalidInput);
        }
        let ht = tile_count(h0, tile_size);
        let wt = tile_count(w0, tile_size);
        proof {
            crate::tiling::lemma_padded_extent(h0 as nat, tile_size as nat);
            crate::tiling::lemma_padded_extent(w0 as nat, tile_size as nat);
            vstd::arithmetic::div_mod::lemma_div_nonincreasing((h0 - 1) as int, tile_size as int);
            vstd::arithmetic::div_mod::lemma_div_nonincreasing((w0 - 1) as int, tile_size as int);
            vstd::arithmetic::div_mod::lemma_div_pos_is_pos((h0 - 1) as int, tile_size as int);
            vstd::arithmetic::div_mod::lemma_div_pos_is_pos((w0 - 1) as int, tile_size as int);
        }
        let ph = ht * tile_size;
        let pw = wt * tile_size;
        let ghost ctx = self.tiled_ctx(*x, tile_size as nat);
        let p1 = crate::pad::pad_edge(x, 3, 18, 18 + pw - w0)?;
        let px = crate::pad::pad_edge(&p1, 2, 18, 18 + ph - h0)?;
        let sweep = TiledSweep {
            unet1: &self.unet1,
            unet2: &self.unet2,
            alpha: &self.alpha,
            use_cache: self.use_cache,
            in_channels: self.in_channels,
            out_channels: self.out_channels,
            scale: 2,
        };
        proof {
            assert(ctx.scale == 2 && ctx.margin() == 18);
            assert(ctx.ht == ht && ctx.wt == wt && ctx.tile == tile_size && ctx.n == n0 as nat
                && ctx.c == c0 as nat);
            assert(tensor_dims(p1) =~= with_axis(
                tensor_dims(*x),
                3,
                (ctx.wt * ctx.tile + 36) as nat,
            ));
            assert(tensor_bits(px) == ctx.g);
            assert(tensor_dims(px) =~= mk_dims(ctx.n, ctx.c, ctx.hh(), ctx.ww()));
            assert(ctx.wf());
            assert(sweep.wf());
            assert(sweep.model() == self.model());
            assert(sweep.ctx_inv(px, ctx));
        }
        let (acc0, cache) = sweep.pass1(&px, tile_size, ht, wt, Ghost(ctx))?;
        proof {
            assert(ht as int * wt as int <= 40000 * 40000) by (nonlinear_arith)
                requires
                    1 <= ht <= 40000,
                    1 <= wt <= 40000,
            ;
        }
        let tn = ht * wt;
        proof {
            assert(tn as int == ctx.t_count() as int);
        }
        let scal = cvt(int_scalar_like(&px, tn as i64))?;
        let gm0 = cvt(bdiv_t(&acc0, &scal))?;
        let (acc1, cache) = sweep.pass2(&px, tile_size, ht, wt, cache, &gm0, Ghost(ctx))?;
        let gm1 = cvt(bdiv_t(&acc1, &scal))?;
        let (acc2, cache) = sweep.pass3(&px, tile_size, ht, wt, cache, &gm0, &gm1, Ghost(ctx))?;
        let gm2 = cvt(bdiv_t(&acc2, &scal))?;
        let (acc3, cache) = sweep.pass4(&px, tile_size, ht, wt, cache, &gm0, &gm1, &gm2, Ghost(ctx))?;
        let gm3 = cvt(bdiv_t(&acc3, &scal))?;
        let res = sweep.pass5(
            &px,
            tile_size,
            ht,
            wt,
            cache,
            &gm0,
            &gm1,
            &gm2,
            &gm3,
            Ghost(ctx),
        )?;
        if h0 != ph || w0 != pw {
            proof {
                assert(2 * (ctx.wt * ctx.tile) == ctx.buf_w()) by (nonlinear_arith)
                    requires
                        ctx.scale == 2,
                        ctx.buf_w() == ctx.scale * (ctx.wt * ctx.tile),
                ;
                assert(2 * (ctx.ht * ctx.tile) == ctx.buf_h()) by (nonlinear_arith)
                    requires
                        ctx.scale == 2,
                        ctx.buf_h() == ctx.scale * (ctx.ht * ctx.tile),
                ;
                assert((ctx.scale * (w0 as nat)) as nat == (2 * w0) as nat) by (nonlinear_arith)
                    requires
                        ctx.scale == 2,
                ;
                assert((ctx.scale * (h0 as nat)) as nat == (2 * h0) as nat) by (nonlinear_arith)
                    requires
                        ctx.scale == 2,
                ;
            }
            let r1 = narrow(&res, 3, 0, 2 * w0);
            let r2 = narrow(&r1, 2, 0, 2 * h0);
            proof {
                assert(with_axis(
                    mk_dims(ctx.n, ctx.c, ctx.buf_h(), ctx.buf_w()),
                    3,
                    (2 * w0) as nat,
                ) =~= mk_dims(ctx.n, ctx.c, ctx.buf_h(), (2 * w0) as nat));
                assert(tensor_dims(r2) =~= mk_dims(
                    ctx.n,
                    self.out_channels as nat,
                    (2 * h0) as nat,
                    (2 * w0) as nat,
                ));
            }
            Ok(r2)
        } else {
            proof {
                assert(ctx.buf_h() == (2 * h0) as nat) by (nonlinear_arith)
                    requires
                        ctx.ht * ctx.tile == h0 as nat,
                        ctx.scale == 2,
                        ctx.buf_h() == ctx.scale * (ctx.ht * ctx.tile),
                ;
                assert(ctx.buf_w() == (2 * w0) as nat) by (nonlinear_arith)
                    requires
                        ctx.wt * ctx.tile == w0 as nat,
                        ctx.scale == 2,
                        ctx.buf_w() == ctx.scale * (ctx.wt * ctx.tile),
                ;
                assert(tensor_dims(res) =~= mk_dims(
                    ctx.n,
                    self.out_channels as nat,
                    (2 * h0) as nat,
                    (2 * w0) as nat,
                ));
            }
            Ok(res)
        }
    }

    /// One engine call: the tiled sweep when a tile size is configured,
    /// whole-image inference otherwise.
    #[verifier::spinoff_prover]
    pub fn forward(&self, x: &candle_core::Tensor) -> (r: Result<candle_core::Tensor, CuganError>)
        requires
            self.wf(),
        ensures
            match r {
                Ok(y) => {
                    &&& self.accepts_input(*x)
                    &&& tensor_dims(y) == mk_dims(
                        tensor_dims(*x)[0],
                        self.out_channels as nat,
                        (2 * tensor_dims(*x)[2]) as nat,
                        (2 * tensor_dims(*x)[3]) as nat,
                    )
                    &&& tensor_bits(y) == self.out_bits(*x)
                },
                Err(_) => true,
            },
            (tensor_dims(*x).len() != 4 || tensor_dims(*x)[1] != self.in_channels) <==> r matches Err(
                CuganError::ShapeMismatch,
            ),
    {
        if let Some(ts) = self.tile_size {
            return self.forward_tile(x, ts);
        }
        let (n0, c0, h0, w0) = match dims4(x) {
            Ok(d) => d,
            Err(_) => {
                return Err(CuganError::ShapeMismatch);
            },
        };
        if c0 != self.in_channels {
            return Err(CuganError::ShapeMismatch);
        }
        if n0 == 0 || h0 == 0 || w0 == 0 || h0 > MAX_EXTENT || w0 > MAX_EXTENT {
            return Err(CuganError::InvalidInput);
        }
        let ph = padded_extent(h0, 2);
        let pw = padded_extent(w0, 2);
        let p1 = crate::pad::pad_edge(x, 3, 18, 18 + pw - w0)?;
        let px = crate::pad::pad_edge(&p1, 2, 18, 18 + ph - h0)?;
        proof {
            assert(tensor_dims(px) =~= mk_dims(
                n0 as nat,
                c0 as nat,
                (ph + 36) as nat,
                (pw + 36) as nat,
            ));
            lemma_whole_arith(ph as int);
            lemma_whole_arith(pw as int);
        }
        let u1 = self.unet1.forward(&px)?;
        proof {
            assert(match self.unet1.conv_bottom {
                ConvBottom::Deconv(mm) => crate::tensor_ops::convt2d_geom(mm).stride == 2
                    && crate::tensor_ops::convt2d_geom(mm).k == 4,
                ConvBottom::Else(_) => false,
            });
            assert(self.unet1.out_extent((ph + 36) as nat) == (2 * ph + 40) as nat);
            assert(self.unet1.out_extent((pw + 36) as nat) == (2 * pw + 40) as nat);
            assert(tensor_dims(u1) =~= mk_dims(
                n0 as nat,
                self.in_channels as nat,
                (2 * ph + 40) as nat,
                (2 * pw + 40) as nat,
            ));
        }
        let x0 = self.unet2.forward(&u1)?;
        proof {
            assert(self.unet2.out_extent((2 * ph + 40) as nat) == (2 * ph) as nat);
            assert(self.unet2.out_extent((2 * pw + 40) as nat) == (2 * pw) as nat);
        }
        let (_, _, uh, uw) = dims4_ok(&u1);
        let cr1 = narrow(&u1, 3, 20, uw - 40);
        let crop = narrow(&cr1, 2, 20, uh - 40);
        proof {
            assert(with_axis(
                mk_dims(n0 as nat, self.in_channels as nat, (2 * ph + 40) as nat, (2 * pw
                    + 40) as nat),
                3,
                (2 * pw) as nat,
            ) =~= mk_dims(n0 as nat, self.in_channels as nat, (2 * ph + 40) as nat, (2
                * pw) as nat));
            assert(tensor_dims(crop) =~= tensor_dims(x0));
        }
        let summed = cvt(add_t(&x0, &crop))?;
        let ghost d0 = tensor_dims(*x);
        let ghost g2 = pad_bits(
            pad_bits(tensor_bits(*x), d0, 3, 18, 18 + pw - w0),
            with_axis(d0, 3, (pw + 36) as nat),
            2,
            18,
            18 + ph - h0,
        );
        proof {
            assert(tensor_dims(p1) =~= with_axis(d0, 3, (pw + 36) as nat));
            assert(tensor_bits(px) == g2);
            assert(tensor_bits(u1) == self.unet1.fwd_bits(g2, d0[0], (ph + 36) as nat, (pw
                + 36) as nat));
            assert(tensor_bits(x0) == self.unet2.fwd_bits(
                tensor_bits(u1),
                d0[0],
                (2 * ph + 40) as nat,
                (2 * pw + 40) as nat,
            ));
            assert(tensor_dims(u1) =~= mk_dims(d0[0], d0[1], (2 * ph + 40) as nat, (2 * pw
                + 40) as nat));
            assert(tensor_bits(crop) == narrow_bits(
                narrow_bits(
                    tensor_bits(u1),
                    mk_dims(d0[0], d0[1], (2 * ph + 40) as nat, (2 * pw + 40) as nat),
                    3,
                    20,
                    (2 * pw) as nat,
                ),
                mk_dims(d0[0], d0[1], (2 * ph + 40) as nat, (2 * pw) as nat),
                2,
                20,
                (2 * ph) as nat,
            ));
            assert(tensor_dims(summed) =~= mk_dims(d0[0], d0[1], (2 * ph) as nat, (2
                * pw) as nat));
        }
        let mut out = summed;
        if h0 != ph || w0 != pw {
            proof {
                assert(with_axis(
                    mk_dims(d0[0], d0[1], (2 * ph) as nat, (2 * pw) as nat),
                    3,
                    (2 * w0) as nat,
                ) =~= mk_dims(d0[0], d0[1], (2 * ph) as nat, (2 * w0) as nat));
            }
            let a = narrow(&out, 3, 0, 2 * w0);
            let b = narrow(&a, 2, 0, 2 * h0);
            out = b;
        }
        let off0 = cvt(int_scalar_like(x, 3))?;
        let off1 = cvt(int_scalar_like(x, 20))?;
        let off = cvt(bdiv_t(&off0, &off1))?;
        let gain0 = cvt(int_scalar_like(x, 2550))?;
        let gain1 = cvt(int_scalar_like(x, 7))?;
        let gain = cvt(bdiv_t(&gain0, &gain1))?;
        let lo = cvt(int_scalar_like(x, 0))?;
        let hi = cvt(int_scalar_like(x, 255))?;
        let d = cvt(bsub_t(&out, &off))?;
        let g = cvt(bmul_t(&d, &gain))?;
        let rd = cvt(round_t(&g))?;
        let fl = cvt(bmax_t(&rd, &lo))?;
        let y = cvt(bmin_t(&fl, &hi))?;
        proof {
            assert(tensor_bits(y) == self.whole_bits(*x));
            assert(tensor_dims(y) =~= mk_dims(
                n0 as nat,
                self.out_channels as nat,
                (2 * h0) as nat,
                (2 * w0) as nat,
            ));
        }
        Ok(y)
    }
}


/// The tile grid a tiled call on `x` uses at `scale`: extents are covered by
/// whole tiles, and the padded contents carry the scale's reflected context
/// margin plus the rounding overhang on the far edges.
pub open spec fn sweep_ctx(x: candle_core::Tensor, tile: nat, scale: nat) -> TileCtx {
    let d = tensor_dims(x);
    let m0: nat = if scale == 2 {
        18
    } else {
        14
    };
    let ht = crate::tiling::tile_count_spec(d[2], tile);
    let wt = crate::tiling::tile_count_spec(d[3], tile);
    let g1 = pad_bits(tensor_bits(x), d, 3, m0 as int, m0 + wt * tile - d[3]);
    let g2 = pad_bits(
        g1,
        with_axis(d, 3, (wt * tile + 2 * m0) as nat),
        2,
        m0 as int,
        m0 + ht * tile - d[2],
    );
    TileCtx { g: g2, n: d[0], c: d[1], scale, tile, ht, wt }
}

/// One tiled sweep's borrowed pieces: the two stages, the post-scale scalar,
/// the caching flag, and the upscale ratio.  Both engines run their tiled
/// pass through this.
pub struct TiledSweep<'a> {
    pub unet1: &'a UNet1,
    pub unet2: &'a UNet2,
    pub alpha: &'a candle_core::Tensor,
    pub use_cache: bool,
    pub in_channels: usize,
    pub out_channels: usize,
    pub scale: usize,
}

impl<'a> TiledSweep<'a> {
    pub open spec fn wf(self) -> bool {
        &&& (*self.unet1).wf()
        &&& (*self.unet1).in_channels == self.in_channels
        &&& (*self.unet1).out_channels == self.out_channels
        &&& ((*self.unet1).for_x3 <==> self.scale == 3)
        &&& (*self.unet1).conv_bottom is Deconv
        &&& (*self.unet1).conv2.seblock is Some
        &&& (*self.unet2).wf()
        &&& (*self.unet2).in_channels == self.in_channels
        &&& (*self.unet2).out_channels == self.out_channels
        &&& (*self.unet2).conv_bottom is Else
        &&& self.in_channels == self.out_channels
        &&& self.in_channels >= 1
        &&& tensor_dims(*self.alpha) == mk_dims(1, 1, 1, 1)
        &&& (self.scale == 2 || self.scale == 3)
    }

    /// What the sweep's output depends on: the stages and the scalar's
    /// contents, not the caching flag.
    pub open spec fn model(self) -> EngineModel {
        EngineModel {
            unet1: *self.unet1,
            unet2: *self.unet2,
            alpha: tensor_bits(*self.alpha),
        }
    }

    /// `px` is the reflect-padded input the tile grid `ctx` describes.
    pub open spec fn ctx_inv(self, px: candle_core::Tensor, ctx: TileCtx) -> bool {
        &&& self.wf()
        &&& ctx.wf()
        &&& ctx.scale == self.scale
        &&& ctx.c == self.in_channels
        &&& tensor_dims(px) == mk_dims(ctx.n, ctx.c, ctx.hh(), ctx.ww())
        &&& tensor_bits(px) == ctx.g
    }

    /// The stage-A output head maps the skip extent to the upscaled tile
    /// extent plus the context stage B consumes.
    proof fn lemma_opt_extent(self, ctx: TileCtx)
        requires
            self.wf(),
            ctx.wf(),
            ctx.scale == self.scale,
        ensures
            (*self.unet1).conv_bottom.out_extent((ctx.skip1_e() - 2) as nat) == ctx.opt_e(),
    {
        lemma_sweep_arith(ctx);
        let t = ctx.tile as int;
        let e = ctx.skip1_e() as int - 2;
        match (*self.unet1).conv_bottom {
            ConvBottom::Deconv(mm) => {
                if ctx.scale == 2 {
                    assert(e == t + 22);
                    assert((e - 1) * 2 + 4 - 2 * 3 == 2 * t + 40) by (nonlinear_arith)
                        requires
                            e == t + 22,
                    ;
                    assert(ctx.opt_e() as int == 2 * t + 40) by (nonlinear_arith)
                        requires
                            ctx.scale == 2,
                            ctx.st() == ctx.scale * ctx.tile,
                            t == ctx.tile,
                            ctx.opt_e() == ctx.st() + 40,
                    ;
                } else {
                    assert(e == t + 14);
                    assert((e - 1) * 3 + 5 - 2 * 2 == 3 * t + 40) by (nonlinear_arith)
                        requires
                            e == t + 14,
                    ;
                    assert(ctx.opt_e() as int == 3 * t + 40) by (nonlinear_arith)
                        requires
                            ctx.scale == 3,
                            ctx.st() == ctx.scale * ctx.tile,
                            t == ctx.tile,
                            ctx.opt_e() == ctx.st() + 40,
                    ;
                }
            },
            ConvBottom::Else(_) => {
                assert(false);
            },
        }
    }

    /// First pass on one tile: slices its window out of the padded input and
    /// runs the stage-A partial pass.
    #[verifier::spinoff_prover]
    pub(crate) fn tile_s1(
        &self,
        px: &candle_core::Tensor,
        i: usize,
        j: usize,
        s: usize,
        Ghost(ctx): Ghost<TileCtx>,
        Ghost(t): Ghost<int>,
    ) -> (r: Result<(candle_core::Tensor, candle_core::Tensor), CuganError>)
        requires
            self.ctx_inv(*px, ctx),
            0 <= t < ctx.t_count(),
            i == ctx.i0(t),
            j == ctx.j0(t),
            s == ctx.win_e(),
        ensures
            match r {
                Ok((t0, xc)) => {
                    &&& tensor_dims(t0) == mk_dims(
                        ctx.n,
                        64,
                        ctx.skip1_e(),
                        ctx.skip1_e(),
                    )
                    &&& tensor_bits(t0) == s1_tmp0(self.model(), ctx, t)
                    &&& tensor_dims(xc) == mk_dims(
                        ctx.n,
                        64,
                        ctx.pre1_e(),
                        ctx.pre1_e(),
                    )
                    &&& tensor_bits(xc) == s1_pre(self.model(), ctx, t)
                },
                Err(e) => e matches CuganError::Compute(_),
            },
    {
        proof {
            lemma_rowcol(ctx, t);
            lemma_sweep_arith(ctx);
        }
        let w1 = narrow(px, 2, i, s);
        let w2 = narrow(&w1, 3, j, s);
        proof {
            assert(tensor_bits(w2) == ctx.win(t));
            assert(tensor_dims(w2) =~= mk_dims(ctx.n, ctx.c, s as nat, s as nat));
        }
        self.unet1.forward_a(&w2)
    }

    /// Second pass on one tile: gates the stage-A feature with the global
    /// gate-1 mean, finishes stage A, and starts stage B.
    #[verifier::spinoff_prover]
    pub(crate) fn tile_s2(
        &self,
        tmp0: &candle_core::Tensor,
        xcrop: &candle_core::Tensor,
        gm0: &candle_core::Tensor,
        Ghost(ctx): Ghost<TileCtx>,
        Ghost(t): Ghost<int>,
    ) -> (r: Result<(candle_core::Tensor, candle_core::Tensor, candle_core::Tensor), CuganError>)
        requires
            self.wf(),
            ctx.wf(),
            ctx.scale == self.scale,
            ctx.c == self.in_channels,
            tensor_dims(*tmp0) == mk_dims(ctx.n, 64, ctx.skip1_e(), ctx.skip1_e()),
            tensor_bits(*tmp0) == s1_tmp0(self.model(), ctx, t),
            tensor_dims(*xcrop) == mk_dims(
                ctx.n,
                64,
                ctx.pre1_e(),
                ctx.pre1_e(),
            ),
            tensor_bits(*xcrop) == s1_pre(self.model(), ctx, t),
            tensor_dims(*gm0) == mk_dims(ctx.n, 64, 1, 1),
            tensor_bits(*gm0) == gmean0(self.model(), ctx),
        ensures
            match r {
                Ok((opt, x1, x2)) => {
                    &&& tensor_dims(opt) == mk_dims(
                        ctx.n,
                        ctx.c,
                        ctx.opt_e(),
                        ctx.opt_e(),
                    )
                    &&& tensor_bits(opt) == s2_opt(self.model(), ctx, t)
                    &&& tensor_dims(x1) == mk_dims(
                        ctx.n,
                        64,
                        ctx.x1_e(),
                        ctx.x1_e(),
                    )
                    &&& tensor_bits(x1) == s2_x1(self.model(), ctx, t)
                    &&& tensor_dims(x2) == mk_dims(
                        ctx.n,
                        128,
                        ctx.x2_e(),
                        ctx.x2_e(),
                    )
                    &&& tensor_bits(x2) == s2_x2(self.model(), ctx, t)
                },
                Err(e) => e matches CuganError::Compute(_),
            },
    {
        proof {
            lemma_sweep_arith(ctx);
        }
        let gated = match &self.unet1.conv2.seblock {
            Some(sb) => sb.forward_mean(xcrop, gm0)?,
            None => {
                return Err(CuganError::MissingSeBlock);
            },
        };
        proof {
            assert(tensor_dims(gated) =~= mk_dims(
                tensor_dims(*tmp0)[0],
                64,
                (tensor_dims(*tmp0)[2] as int / 2) as nat,
                (tensor_dims(*tmp0)[3] as int / 2) as nat,
            ));
        }
        let opt = self.unet1.forward_b(tmp0, &gated)?;
        proof {
            self.lemma_opt_extent(ctx);
            assert(tensor_dims(opt)[2] == ctx.opt_e());
            assert(tensor_dims(opt) =~= mk_dims(
                ctx.n,
                ctx.c,
                ctx.opt_e(),
                ctx.opt_e(),
            ));
        }
        let (x1, x2) = self.unet2.forward_a(&opt)?;
        proof {
            assert(tensor_dims(x1) =~= mk_dims(
                ctx.n,
                64,
                ctx.x1_e(),
                ctx.x1_e(),
            ));
            assert(tensor_dims(x2) =~= mk_dims(
                ctx.n,
                128,
                ctx.x2_e(),
                ctx.x2_e(),
            ));
        }
        Ok((opt, x1, x2))
    }

    /// Third pass on one tile: gates with the global gate-2 mean and advances
    /// stage B to its second gating point.
    #[verifier::spinoff_prover]
    pub(crate) fn tile_s3(
        &self,
        x2: &candle_core::Tensor,
        gm1: &candle_core::Tensor,
        Ghost(ctx): Ghost<TileCtx>,
        Ghost(t): Ghost<int>,
    ) -> (r: Result<(candle_core::Tensor, candle_core::Tensor), CuganError>)
        requires
            self.wf(),
            ctx.wf(),
            ctx.scale == self.scale,
            ctx.c == self.in_channels,
            tensor_dims(*x2) == mk_dims(ctx.n, 128, ctx.x2_e(), ctx.x2_e()),
            tensor_bits(*x2) == s2_x2(self.model(), ctx, t),
            tensor_dims(*gm1) == mk_dims(ctx.n, 128, 1, 1),
            tensor_bits(*gm1) == gmean1(self.model(), ctx),
        ensures
            match r {
                Ok((x2n, x3)) => {
                    &&& tensor_dims(x2n) == mk_dims(
                        ctx.n,
                        128,
                        ctx.x2n_e(),
                        ctx.x2n_e(),
                    )
                    &&& tensor_bits(x2n) == s3_x2n(self.model(), ctx, t)
                    &&& tensor_dims(x3) == mk_dims(
                        ctx.n,
                        128,
                        ctx.x3_e(),
                        ctx.x3_e(),
                    )
                    &&& tensor_bits(x3) == s3_x3(self.model(), ctx, t)
                },
                Err(e) => e matches CuganError::Compute(_),
            },
    {
        proof {
            lemma_sweep_arith(ctx);
        }
        let gated = match &self.unet2.conv2.seblock {
            Some(sb) => sb.forward_mean(x2, gm1)?,
            None => {
                return Err(CuganError::MissingSeBlock);
            },
        };
        let (x2n, x3) = self.unet2.forward_b(&gated)?;
        proof {
            assert(tensor_dims(x2n) =~= mk_dims(
                ctx.n,
                128,
                ctx.x2n_e(),
                ctx.x2n_e(),
            ));
            assert(tensor_dims(x3) =~= mk_dims(
                ctx.n,
                128,
                ctx.x3_e(),
                ctx.x3_e(),
            ));
        }
        Ok((x2n, x3))
    }

    /// Fourth pass on one tile: gates with the global gate-3 mean, advances
    /// to the third gating point, and applies the `alpha` factor.
    #[verifier::spinoff_prover]
    pub(crate) fn tile_s4(
        &self,
        x2n: &candle_core::Tensor,
        x3: &candle_core::Tensor,
        gm2: &candle_core::Tensor,
        Ghost(ctx): Ghost<TileCtx>,
        Ghost(t): Ghost<int>,
    ) -> (r: Result<candle_core::Tensor, CuganError>)
        requires
            self.wf(),
            ctx.wf(),
            ctx.scale == self.scale,
            ctx.c == self.in_channels,
            tensor_dims(*x2n) == mk_dims(ctx.n, 128, ctx.x2n_e(), ctx.x2n_e()),
            tensor_bits(*x2n) == s3_x2n(self.model(), ctx, t),
            tensor_dims(*x3) == mk_dims(
                ctx.n,
                128,
                ctx.x3_e(),
                ctx.x3_e(),
            ),
            tensor_bits(*x3) == s3_x3(self.model(), ctx, t),
            tensor_dims(*gm2) == mk_dims(ctx.n, 128, 1, 1),
            tensor_bits(*gm2) == gmean2(self.model(), ctx),
        ensures
            match r {
                Ok(x4) => {
                    &&& tensor_dims(x4) == mk_dims(
                        ctx.n,
                        64,
                        ctx.x4_e(),
                        ctx.x4_e(),
                    )
                    &&& tensor_bits(x4) == s4_x4(self.model(), ctx, t)
                },
                Err(e) => e matches CuganError::Compute(_),
            },
    {
        proof {
            lemma_sweep_arith(ctx);
        }
        let gated = match &self.unet2.conv3.seblock {
            Some(sb) => sb.forward_mean(x3, gm2)?,
            None => {
                return Err(CuganError::MissingSeBlock);
            },
        };
        proof {
            assert(tensor_dims(gated) =~= mk_dims(
                tensor_dims(*x2n)[0],
                128,
                (tensor_dims(*x2n)[2] as int / 2) as nat,
                (tensor_dims(*x2n)[3] as int / 2) as nat,
            ));
        }
        let c = self.unet2.forward_c(x2n, &gated)?;
        proof {
            assert(tensor_dims(c) =~= mk_dims(
                ctx.n,
                64,
                ctx.x4_e(),
                ctx.x4_e(),
            ));
        }
        cvt(bmul_t(&c, self.alpha))
    }

    /// Final pass on one tile: gates with the global gate-4 mean, finishes
    /// stage B, adds the cropped stage-A skip, and denormalizes.
    #[verifier::spinoff_prover]
    pub(crate) fn tile_s5(
        &self,
        opt: &candle_core::Tensor,
        x1: &candle_core::Tensor,
        x4: &candle_core::Tensor,
        gm3: &candle_core::Tensor,
        off: &candle_core::Tensor,
        gain: &candle_core::Tensor,
        lo: &candle_core::Tensor,
        hi: &candle_core::Tensor,
        Ghost(ctx): Ghost<TileCtx>,
        Ghost(t): Ghost<int>,
    ) -> (r: Result<candle_core::Tensor, CuganError>)
        requires
            self.wf(),
            ctx.wf(),
            ctx.scale == self.scale,
            ctx.c == self.in_channels,
            tensor_dims(*opt) == mk_dims(
                ctx.n,
                ctx.c,
                ctx.opt_e(),
                ctx.opt_e(),
            ),
            tensor_bits(*opt) == s2_opt(self.model(), ctx, t),
            tensor_dims(*x1) == mk_dims(
                ctx.n,
                64,
                ctx.x1_e(),
                ctx.x1_e(),
            ),
            tensor_bits(*x1) == s2_x1(self.model(), ctx, t),
            tensor_dims(*x4) == mk_dims(ctx.n, 64, ctx.x4_e(), ctx.x4_e()),
            tensor_bits(*x4) == s4_x4(self.model(), ctx, t),
            tensor_dims(*gm3) == mk_dims(ctx.n, 64, 1, 1),
            tensor_bits(*gm3) == gmean3(self.model(), ctx),
            tensor_dims(*off) == mk_dims(1, 1, 1, 1),
            tensor_bits(*off) == offset_bits(),
            tensor_dims(*gain) == mk_dims(1, 1, 1, 1),
            tensor_bits(*gain) == gain_bits(),
            tensor_dims(*lo) == mk_dims(1, 1, 1, 1),
            tensor_bits(*lo) == lo_bits(),
            tensor_dims(*hi) == mk_dims(1, 1, 1, 1),
            tensor_bits(*hi) == hi_bits(),
        ensures
            match r {
                Ok(y) => {
                    &&& tensor_dims(y) == mk_dims(
                        ctx.n,
                        ctx.c,
                        ctx.out_e(),
                        ctx.out_e(),
                    )
                    &&& tensor_bits(y) == s5_tile(self.model(), ctx, t)
                },
                Err(e) => e matches CuganError::Compute(_),
            },
    {
        proof {
            lemma_sweep_arith(ctx);
        }
        let gated = match &self.unet2.conv4.seblock {
            Some(sb) => sb.forward_mean(x4, gm3)?,
            None => {
                return Err(CuganError::MissingSeBlock);
            },
        };
        proof {
            assert(tensor_dims(gated) =~= mk_dims(
                tensor_dims(*x1)[0],
                64,
                (tensor_dims(*x1)[2] as int / 2) as nat,
                (tensor_dims(*x1)[3] as int / 2) as nat,
            ));
        }
        let x0 = self.unet2.forward_d(x1, &gated)?;
        let (_, _, oh, ow) = dims4_ok(opt);
        let cropa = narrow(opt, 3, 20, ow - 40);
        let crop = narrow(&cropa, 2, 20, oh - 40);
        proof {
            assert(tensor_dims(x0) =~= mk_dims(
                ctx.n,
                ctx.c,
                ctx.out_e(),
                ctx.out_e(),
            ));
            assert(tensor_dims(crop) =~= tensor_dims(x0));
        }
        let s = cvt(add_t(&x0, &crop))?;
        let d = cvt(bsub_t(&s, off))?;
        let g = cvt(bmul_t(&d, gain))?;
        let rd = cvt(round_t(&g))?;
        let fl = cvt(bmax_t(&rd, lo))?;
        let y = cvt(bmin_t(&fl, hi))?;
        proof {
            assert(with_axis(
                mk_dims(ctx.n, ctx.c, ctx.opt_e(), ctx.opt_e()),
                3,
                ctx.out_e(),
            ) =~= mk_dims(ctx.n, ctx.c, ctx.opt_e(), ctx.out_e()));
            assert(tensor_bits(crop) == narrow_bits(
                narrow_bits(
                    s2_opt(self.model(), ctx, t),
                    mk_dims(ctx.n, ctx.c, ctx.opt_e(), ctx.opt_e()),
                    3,
                    20,
                    ctx.out_e(),
                ),
                mk_dims(ctx.n, ctx.c, ctx.opt_e(), ctx.out_e()),
                2,
                20,
                ctx.out_e(),
            ));
            assert(tensor_bits(x0) == self.unet2.d_bits(
                s2_x1(self.model(), ctx, t),
                sb_of(self.unet2.conv4.seblock).gate_bits(
                    s4_x4(self.model(), ctx, t),
                    gmean3(self.model(), ctx),
                ),
            ));
            assert(tensor_bits(y) == s5_tile(self.model(), ctx, t));
            assert(tensor_dims(y) =~= mk_dims(
                ctx.n,
                ctx.c,
                ctx.out_e(),
                ctx.out_e(),
            ));
        }
        Ok(y)
    }

    /// The row-major grid arithmetic of one sweep step.
    proof fn lemma_grid_step(ctx: TileCtx, r: int, c: int)
        requires
            ctx.wf(),
            0 <= r < ctx.ht,
            0 <= c < ctx.wt,
        ensures
            0 <= r * ctx.wt + c < ctx.ht * ctx.wt,
            (r * ctx.wt + c) / ctx.wt as int == r,
            (r * ctx.wt + c) % ctx.wt as int == c,
            r * ctx.wt + ctx.wt == (r + 1) * ctx.wt,
            (r + 1) * ctx.wt <= ctx.ht * ctx.wt,
            ctx.ht * ctx.wt <= 40000 * 40000,
            r * ctx.tile + ctx.tile <= ctx.ht * ctx.tile,
            c * ctx.tile + ctx.tile <= ctx.wt * ctx.tile,
            r * ctx.tile >= 0,
            c * ctx.tile >= 0,
    {
        crate::tiling::lemma_tile_index(r as nat, c as nat, ctx.ht, ctx.wt);
        assert(r * ctx.wt + ctx.wt == (r + 1) * ctx.wt) by (nonlinear_arith);
        vstd::arithmetic::mul::lemma_mul_inequality(r + 1, ctx.ht as int, ctx.wt as int);
        assert(ctx.ht <= 40000 && ctx.wt <= 40000) by (nonlinear_arith)
            requires
                ctx.tile >= 2,
                ctx.ht >= 1,
                ctx.wt >= 1,
                ctx.ht * ctx.tile <= 2 * 40000,
                ctx.wt * ctx.tile <= 2 * 40000,
        ;
        assert(ctx.ht * ctx.wt <= 40000 * 40000) by (nonlinear_arith)
            requires
                ctx.ht <= 40000,
                ctx.wt <= 40000,
        ;
        crate::tiling::lemma_tile_interior_in_bounds(r as nat, ctx.ht, ctx.tile);
        crate::tiling::lemma_tile_interior_in_bounds(c as nat, ctx.wt, ctx.tile);
        assert(r * ctx.tile >= 0 && c * ctx.tile >= 0) by (nonlinear_arith)
            requires
                r >= 0,
                c >= 0,
                ctx.tile >= 2,
        ;
    }

    /// The first pass's cache entry for tile `t`: the stage-A skip tensor and
    /// the feature entering gate 1.
    pub open spec fn cache1_ok(self, ctx: TileCtx, e: Seq<candle_core::Tensor>, t: int) -> bool {
        &&& e.len() == 2
        &&& tensor_dims(e[0]) == mk_dims(ctx.n, 64, ctx.skip1_e(), ctx.skip1_e())
        &&& tensor_bits(e[0]) == s1_tmp0(self.model(), ctx, t)
        &&& tensor_dims(e[1]) == mk_dims(
            ctx.n,
            64,
            ctx.pre1_e(),
            ctx.pre1_e(),
        )
        &&& tensor_bits(e[1]) == s1_pre(self.model(), ctx, t)
    }

    /// First pass over the grid: accumulates every tile's local gate-1 mean,
    /// and caches each tile's two stage-A tensors when caching is enabled.
    #[verifier::spinoff_prover]
    pub(crate) fn pass1(
        &self,
        px: &candle_core::Tensor,
        tile: usize,
        ht: usize,
        wt: usize,
        Ghost(ctx): Ghost<TileCtx>,
    ) -> (r: Result<(candle_core::Tensor, Vec<Vec<candle_core::Tensor>>), CuganError>)
        requires
            self.ctx_inv(*px, ctx),
            tile == ctx.tile,
            ht == ctx.ht,
            wt == ctx.wt,
        ensures
            match r {
                Ok((acc, cache)) => {
                    &&& tensor_dims(acc) == mk_dims(ctx.n, 64, 1, 1)
                    &&& tensor_bits(acc) == sum0(self.model(), ctx, ctx.t_count() as int)
                    &&& (self.use_cache ==> cache@.len() == ctx.t_count() && (forall|t: int|
                        0 <= t < ctx.t_count() ==> self.cache1_ok(ctx, #[trigger] cache@[t]@, t)))
                    &&& (!self.use_cache ==> cache@.len() == 0)
                },
                Err(e) => e matches CuganError::Compute(_),
            },
    {
        let ghost m = self.model();
        let mg: usize = if self.scale == 2 {
            18
        } else {
            14
        };
        proof {
            assert(mg == ctx.margin());
        }
        let (pn, _, _, _) = dims4_ok(px);
        let mut acc = cvt(zeros_like4(px, pn, 64, 1, 1))?;
        let mut cache: Vec<Vec<candle_core::Tensor>> = Vec::new();
        let mut r: usize = 0;
        while r < ht
            invariant
                self.ctx_inv(*px, ctx),
                tile == ctx.tile,
                mg as nat == ctx.margin(),
                ht == ctx.ht,
                wt == ctx.wt,
                pn == ctx.n,
                0 <= r <= ht,
                tensor_dims(acc) == mk_dims(ctx.n, 64, 1, 1),
                tensor_bits(acc) == sum0(m, ctx, r as int * wt as int),
                m == self.model(),
                self.use_cache ==> cache@.len() == r as int * wt as int && (forall|t: int|
                    0 <= t < r as int * wt as int ==> self.cache1_ok(ctx, #[trigger] cache@[t]@, t)),
                !self.use_cache ==> cache@.len() == 0,
            decreases ht - r,
        {
            let mut c: usize = 0;
            while c < wt
                invariant
                    self.ctx_inv(*px, ctx),
                    tile == ctx.tile,
                    mg as nat == ctx.margin(),
                mg as nat == ctx.margin(),
                    ht == ctx.ht,
                    wt == ctx.wt,
                    pn == ctx.n,
                    0 <= r < ht,
                    0 <= c <= wt,
                    tensor_dims(acc) == mk_dims(ctx.n, 64, 1, 1),
                    tensor_bits(acc) == sum0(m, ctx, r as int * wt as int + c as int),
                    m == self.model(),
                    self.use_cache ==> cache@.len() == r as int * wt as int + c as int && (
                    forall|t: int|
                        0 <= t < r as int * wt as int + c as int ==> self.cache1_ok(
                            ctx,
                            #[trigger] cache@[t]@,
                            t,
                        )),
                    !self.use_cache ==> cache@.len() == 0,
                decreases wt - c,
            {
                proof {
                    Self::lemma_grid_step(ctx, r as int, c as int);
                }
                let i = r * tile;
                let j = c * tile;
                let ghost t = r as int * wt as int + c as int;
                let (t0, xc) = self.tile_s1(px, i, j, tile + 2 * mg, Ghost(ctx), Ghost(t))?;
                let mean = cvt(mean23_t(&xc))?;
                let acc2 = cvt(add_t(&acc, &mean))?;
                acc = acc2;
                if self.use_cache {
                    let mut e: Vec<candle_core::Tensor> = Vec::new();
                    e.push(t0);
                    e.push(xc);
                    cache.push(e);
                }
                c = c + 1;
            }
            proof {
                assert(r as int * wt as int + wt as int == (r as int + 1) * wt as int)
                    by (nonlinear_arith);
            }
            r = r + 1;
        }
        proof {
            assert(ht as int * wt as int == ctx.t_count() as int) by (nonlinear_arith)
                requires
                    ht == ctx.ht,
                    wt == ctx.wt,
                    ctx.t_count() == ctx.ht * ctx.wt,
            ;
        }
        Ok((acc, cache))
    }

    /// The second pass's cache entry for tile `t`: the gated stage-A output
    /// and the two stage-B tensors at gate 2.
    pub open spec fn cache2_ok(self, ctx: TileCtx, e: Seq<candle_core::Tensor>, t: int) -> bool {
        &&& e.len() == 3
        &&& tensor_dims(e[0]) == mk_dims(
            ctx.n,
            ctx.c,
            ctx.opt_e(),
            ctx.opt_e(),
        )
        &&& tensor_bits(e[0]) == s2_opt(self.model(), ctx, t)
        &&& tensor_dims(e[1]) == mk_dims(
            ctx.n,
            64,
            ctx.x1_e(),
            ctx.x1_e(),
        )
        &&& tensor_bits(e[1]) == s2_x1(self.model(), ctx, t)
        &&& tensor_dims(e[2]) == mk_dims(ctx.n, 128, ctx.x2_e(), ctx.x2_e())
        &&& tensor_bits(e[2]) == s2_x2(self.model(), ctx, t)
    }

    /// The third pass's cache entry for tile `t`.
    pub open spec fn cache3_ok(self, ctx: TileCtx, e: Seq<candle_core::Tensor>, t: int) -> bool {
        &&& e.len() == 4
        &&& tensor_dims(e[0]) == mk_dims(
            ctx.n,
            ctx.c,
            ctx.opt_e(),
            ctx.opt_e(),
        )
        &&& tensor_bits(e[0]) == s2_opt(self.model(), ctx, t)
        &&& tensor_dims(e[1]) == mk_dims(
            ctx.n,
            64,
            ctx.x1_e(),
            ctx.x1_e(),
        )
        &&& tensor_bits(e[1]) == s2_x1(self.model(), ctx, t)
        &&& tensor_dims(e[2]) == mk_dims(ctx.n, 128, ctx.x2n_e(), ctx.x2n_e())
        &&& tensor_bits(e[2]) == s3_x2n(self.model(), ctx, t)
        &&& tensor_dims(e[3]) == mk_dims(
            ctx.n,
            128,
            ctx.x3_e(),
            ctx.x3_e(),
        )
        &&& tensor_bits(e[3]) == s3_x3(self.model(), ctx, t)
    }

    /// The fourth pass's cache entry for tile `t`.
    pub open spec fn cache4_ok(self, ctx: TileCtx, e: Seq<candle_core::Tensor>, t: int) -> bool {
        &&& e.len() == 3
        &&& tensor_dims(e[0]) == mk_dims(
            ctx.n,
            ctx.c,
            ctx.opt_e(),
            ctx.opt_e(),
        )
        &&& tensor_bits(e[0]) == s2_opt(self.model(), ctx, t)
        &&& tensor_dims(e[1]) == mk_dims(
            ctx.n,
            64,
            ctx.x1_e(),
            ctx.x1_e(),
        )
        &&& tensor_bits(e[1]) == s2_x1(self.model(), ctx, t)
        &&& tensor_dims(e[2]) == mk_dims(ctx.n, 64, ctx.x4_e(), ctx.x4_e())
        &&& tensor_bits(e[2]) == s4_x4(self.model(), ctx, t)
    }

    /// Second pass: gates each tile at gate 1 with the global mean, advances
    /// to gate 2, and accumulates the local means there.
    #[verifier::spinoff_prover]
    pub(crate) fn pass2(
        &self,
        px: &candle_core::Tensor,
        tile: usize,
        ht: usize,
        wt: usize,
        cache: Vec<Vec<candle_core::Tensor>>,
        gm0: &candle_core::Tensor,
        Ghost(ctx): Ghost<TileCtx>,
    ) -> (r: Result<(candle_core::Tensor, Vec<Vec<candle_core::Tensor>>), CuganError>)
        requires
            self.ctx_inv(*px, ctx),
            tile == ctx.tile,
            ht == ctx.ht,
            wt == ctx.wt,
            tensor_dims(*gm0) == mk_dims(ctx.n, 64, 1, 1),
            tensor_bits(*gm0) == gmean0(self.model(), ctx),
            self.use_cache ==> cache@.len() == ctx.t_count() && (forall|t: int|
                0 <= t < ctx.t_count() ==> self.cache1_ok(ctx, #[trigger] cache@[t]@, t)),
            !self.use_cache ==> cache@.len() == 0,
        ensures
            match r {
                Ok((acc, cache2)) => {
                    &&& tensor_dims(acc) == mk_dims(ctx.n, 128, 1, 1)
                    &&& tensor_bits(acc) == sum1(self.model(), ctx, ctx.t_count() as int)
                    &&& (self.use_cache ==> cache2@.len() == ctx.t_count() && (forall|t: int|
                        0 <= t < ctx.t_count() ==> self.cache2_ok(ctx, #[trigger] cache2@[t]@, t)))
                    &&& (!self.use_cache ==> cache2@.len() == 0)
                },
                Err(e) => e matches CuganError::Compute(_) || e matches CuganError::MissingSeBlock,
            },
    {
        let ghost m = self.model();
        let mg: usize = if self.scale == 2 {
            18
        } else {
            14
        };
        proof {
            assert(mg == ctx.margin());
        }
        let mut cache = cache;
        let (pn, _, _, _) = dims4_ok(px);
        let mut acc = cvt(zeros_like4(px, pn, 128, 1, 1))?;
        let mut r: usize = 0;
        while r < ht
            invariant
                self.ctx_inv(*px, ctx),
                tile == ctx.tile,
                mg as nat == ctx.margin(),
                ht == ctx.ht,
                wt == ctx.wt,
                pn == ctx.n,
                0 <= r <= ht,
                tensor_dims(*gm0) == mk_dims(ctx.n, 64, 1, 1),
                tensor_bits(*gm0) == gmean0(m, ctx),
                tensor_dims(acc) == mk_dims(ctx.n, 128, 1, 1),
                tensor_bits(acc) == sum1(m, ctx, r as int * wt as int),
                m == self.model(),
                self.use_cache ==> cache@.len() == ctx.t_count() && (forall|t: int|
                    0 <= t < r as int * wt as int ==> self.cache2_ok(ctx, #[trigger] cache@[t]@, t))
                    && (forall|t: int|
                    r as int * wt as int <= t < ctx.t_count() ==> self.cache1_ok(
                        ctx,
                        #[trigger] cache@[t]@,
                        t,
                    )),
                !self.use_cache ==> cache@.len() == 0,
            decreases ht - r,
        {
            let mut c: usize = 0;
            while c < wt
                invariant
                    self.ctx_inv(*px, ctx),
                    tile == ctx.tile,
                    mg as nat == ctx.margin(),
                mg as nat == ctx.margin(),
                    ht == ctx.ht,
                    wt == ctx.wt,
                    pn == ctx.n,
                    0 <= r < ht,
                    0 <= c <= wt,
                    tensor_dims(*gm0) == mk_dims(ctx.n, 64, 1, 1),
                    tensor_bits(*gm0) == gmean0(m, ctx),
                    tensor_dims(acc) == mk_dims(ctx.n, 128, 1, 1),
                    tensor_bits(acc) == sum1(m, ctx, r as int * wt as int + c as int),
                    m == self.model(),
                    self.use_cache ==> cache@.len() == ctx.t_count() && (forall|t: int|
                        0 <= t < r as int * wt as int + c as int ==> self.cache2_ok(
                            ctx,
                            #[trigger] cache@[t]@,
                            t,
                        )) && (forall|t: int|
                        r as int * wt as int + c as int <= t < ctx.t_count() ==> self.cache1_ok(
                            ctx,
                            #[trigger] cache@[t]@,
                            t,
                        )),
                    !self.use_cache ==> cache@.len() == 0,
                decreases wt - c,
            {
                proof {
                    Self::lemma_grid_step(ctx, r as int, c as int);
                }
                let i = r * tile;
                let j = c * tile;
                let idx = r * wt + c;
                let ghost t = r as int * wt as int + c as int;
                let (opt, x1, x2) = if self.use_cache {
                    let e = &cache[idx];
                    self.tile_s2(&e[0], &e[1], gm0, Ghost(ctx), Ghost(t))?
                } else {
                    let (t0, xc) = self.tile_s1(px, i, j, tile + 2 * mg, Ghost(ctx), Ghost(t))?;
                    self.tile_s2(&t0, &xc, gm0, Ghost(ctx), Ghost(t))?
                };
                let mean = cvt(mean23_t(&x2))?;
                let acc2 = cvt(add_t(&acc, &mean))?;
                acc = acc2;
                if self.use_cache {
                    let mut e2: Vec<candle_core::Tensor> = Vec::new();
                    e2.push(opt);
                    e2.push(x1);
                    e2.push(x2);
                    cache[idx] = e2;
                }
                c = c + 1;
            }
            proof {
                assert(r as int * wt as int + wt as int == (r as int + 1) * wt as int)
                    by (nonlinear_arith);
            }
            r = r + 1;
        }
        proof {
            assert(ht as int * wt as int == ctx.t_count() as int) by (nonlinear_arith)
                requires
                    ht == ctx.ht,
                    wt == ctx.wt,
                    ctx.t_count() == ctx.ht * ctx.wt,
            ;
        }
        Ok((acc, cache))
    }

    /// Third pass: gates at gate 2, advances to gate 3, accumulates means.
    #[verifier::spinoff_prover]
    pub(crate) fn pass3(
        &self,
        px: &candle_core::Tensor,
        tile: usize,
        ht: usize,
        wt: usize,
        cache: Vec<Vec<candle_core::Tensor>>,
        gm0: &candle_core::Tensor,
        gm1: &candle_core::Tensor,
        Ghost(ctx): Ghost<TileCtx>,
    ) -> (r: Result<(candle_core::Tensor, Vec<Vec<candle_core::Tensor>>), CuganError>)
        requires
            self.ctx_inv(*px, ctx),
            tile == ctx.tile,
            ht == ctx.ht,
            wt == ctx.wt,
            tensor_dims(*gm0) == mk_dims(ctx.n, 64, 1, 1),
            tensor_bits(*gm0) == gmean0(self.model(), ctx),
            tensor_dims(*gm1) == mk_dims(ctx.n, 128, 1, 1),
            tensor_bits(*gm1) == gmean1(self.model(), ctx),
            self.use_cache ==> cache@.len() == ctx.t_count() && (forall|t: int|
                0 <= t < ctx.t_count() ==> self.cache2_ok(ctx, #[trigger] cache@[t]@, t)),
            !self.use_cache ==> cache@.len() == 0,
        ensures
            match r {
                Ok((acc, cache2)) => {
                    &&& tensor_dims(acc) == mk_dims(ctx.n, 128, 1, 1)
                    &&& tensor_bits(acc) == sum2(self.model(), ctx, ctx.t_count() as int)
                    &&& (self.use_cache ==> cache2@.len() == ctx.t_count() && (forall|t: int|
                        0 <= t < ctx.t_count() ==> self.cache3_ok(ctx, #[trigger] cache2@[t]@, t)))
                    &&& (!self.use_cache ==> cache2@.len() == 0)
                },
                Err(e) => e matches CuganError::Compute(_) || e matches CuganError::MissingSeBlock,
            },
    {
        let ghost m = self.model();
        let mg: usize = if self.scale == 2 {
            18
        } else {
            14
        };
        proof {
            assert(mg == ctx.margin());
        }
        let mut cache = cache;
        let (pn, _, _, _) = dims4_ok(px);
        let mut acc = cvt(zeros_like4(px, pn, 128, 1, 1))?;
        let mut r: usize = 0;
        while r < ht
            invariant
                self.ctx_inv(*px, ctx),
                tile == ctx.tile,
                mg as nat == ctx.margin(),
                ht == ctx.ht,
                wt == ctx.wt,
                pn == ctx.n,
                0 <= r <= ht,
                tensor_dims(*gm0) == mk_dims(ctx.n, 64, 1, 1),
                tensor_bits(*gm0) == gmean0(m, ctx),
                tensor_dims(*gm1) == mk_dims(ctx.n, 128, 1, 1),
                tensor_bits(*gm1) == gmean1(m, ctx),
                tensor_dims(acc) == mk_dims(ctx.n, 128, 1, 1),
                tensor_bits(acc) == sum2(m, ctx, r as int * wt as int),
                m == self.model(),
                self.use_cache ==> cache@.len() == ctx.t_count() && (forall|t: int|
                    0 <= t < r as int * wt as int ==> self.cache3_ok(ctx, #[trigger] cache@[t]@, t))
                    && (forall|t: int|
                    r as int * wt as int <= t < ctx.t_count() ==> self.cache2_ok(
                        ctx,
                        #[trigger] cache@[t]@,
                        t,
                    )),
                !self.use_cache ==> cache@.len() == 0,
            decreases ht - r,
        {
            let mut c: usize = 0;
            while c < wt
                invariant
                    self.ctx_inv(*px, ctx),
                    tile == ctx.tile,
                    mg as nat == ctx.margin(),
                mg as nat == ctx.margin(),
                    ht == ctx.ht,
                    wt == ctx.wt,
                    pn == ctx.n,
                    0 <= r < ht,
                    0 <= c <= wt,
                    tensor_dims(*gm0) == mk_dims(ctx.n, 64, 1, 1),
                    tensor_bits(*gm0) == gmean0(m, ctx),
                    tensor_dims(*gm1) == mk_dims(ctx.n, 128, 1, 1),
                    tensor_bits(*gm1) == gmean1(m, ctx),
                    tensor_dims(acc) == mk_dims(ctx.n, 128, 1, 1),
                    tensor_bits(acc) == sum2(m, ctx, r as int * wt as int + c as int),
                    m == self.model(),
                    self.use_cache ==> cache@.len() == ctx.t_count() && (forall|t: int|
                        0 <= t < r as int * wt as int + c as int ==> self.cache3_ok(
                            ctx,
                            #[trigger] cache@[t]@,
                            t,
                        )) && (forall|t: int|
                        r as int * wt as int + c as int <= t < ctx.t_count() ==> self.cache2_ok(
                            ctx,
                            #[trigger] cache@[t]@,
                            t,
                        )),
                    !self.use_cache ==> cache@.len() == 0,
                decreases wt - c,
            {
                proof {
                    Self::lemma_grid_step(ctx, r as int, c as int);
                }
                let i = r * tile;
                let j = c * tile;
                let idx = r * wt + c;
                let ghost t = r as int * wt as int + c as int;
                let (opt, x1, x2n, x3) = if self.use_cache {
                    let e = &cache[idx];
                    let opt = clone_tensor(&e[0]);
                    let x1 = clone_tensor(&e[1]);
                    let (x2n, x3) = self.tile_s3(&e[2], gm1, Ghost(ctx), Ghost(t))?;
                    (opt, x1, x2n, x3)
                } else {
                    let (t0, xc) = self.tile_s1(px, i, j, tile + 2 * mg, Ghost(ctx), Ghost(t))?;
                    let (opt, x1, x2) = self.tile_s2(&t0, &xc, gm0, Ghost(ctx), Ghost(t))?;
                    let (x2n, x3) = self.tile_s3(&x2, gm1, Ghost(ctx), Ghost(t))?;
                    (opt, x1, x2n, x3)
                };
                let mean = cvt(mean23_t(&x3))?;
                let acc2 = cvt(add_t(&acc, &mean))?;
                acc = acc2;
                if self.use_cache {
                    let mut e2: Vec<candle_core::Tensor> = Vec::new();
                    e2.push(opt);
                    e2.push(x1);
                    e2.push(x2n);
                    e2.push(x3);
                    cache[idx] = e2;
                }
                c = c + 1;
            }
            proof {
                assert(r as int * wt as int + wt as int == (r as int + 1) * wt as int)
                    by (nonlinear_arith);
            }
            r = r + 1;
        }
        proof {
            assert(ht as int * wt as int == ctx.t_count() as int) by (nonlinear_arith)
                requires
                    ht == ctx.ht,
                    wt == ctx.wt,
                    ctx.t_count() == ctx.ht * ctx.wt,
            ;
        }
        Ok((acc, cache))
    }

    /// Fourth pass: gates at gate 3, advances to the third gating point,
    /// applies `alpha`, accumulates means.
    #[verifier::spinoff_prover]
    pub(crate) fn pass4(
        &self,
        px: &candle_core::Tensor,
        tile: usize,
        ht: usize,
        wt: usize,
        cache: Vec<Vec<candle_core::Tensor>>,
        gm0: &candle_core::Tensor,
        gm1: &candle_core::Tensor,
        gm2: &candle_core::Tensor,
        Ghost(ctx): Ghost<TileCtx>,
    ) -> (r: Result<(candle_core::Tensor, Vec<Vec<candle_core::Tensor>>), CuganError>)
        requires
            self.ctx_inv(*px, ctx),
            tile == ctx.tile,
            ht == ctx.ht,
            wt == ctx.wt,
            tensor_dims(*gm0) == mk_dims(ctx.n, 64, 1, 1),
            tensor_bits(*gm0) == gmean0(self.model(), ctx),
            tensor_dims(*gm1) == mk_dims(ctx.n, 128, 1, 1),
            tensor_bits(*gm1) == gmean1(self.model(), ctx),
            tensor_dims(*gm2) == mk_dims(ctx.n, 128, 1, 1),
            tensor_bits(*gm2) == gmean2(self.model(), ctx),
            self.use_cache ==> cache@.len() == ctx.t_count() && (forall|t: int|
                0 <= t < ctx.t_count() ==> self.cache3_ok(ctx, #[trigger] cache@[t]@, t)),
            !self.use_cache ==> cache@.len() == 0,
        ensures
            match r {
                Ok((acc, cache2)) => {
                    &&& tensor_dims(acc) == mk_dims(ctx.n, 64, 1, 1)
                    &&& tensor_bits(acc) == sum3(self.model(), ctx, ctx.t_count() as int)
                    &&& (self.use_cache ==> cache2@.len() == ctx.t_count() && (forall|t: int|
                        0 <= t < ctx.t_count() ==> self.cache4_ok(ctx, #[trigger] cache2@[t]@, t)))
                    &&& (!self.use_cache ==> cache2@.len() == 0)
                },
                Err(e) => e matches CuganError::Compute(_) || e matches CuganError::MissingSeBlock,
            },
    {
        let ghost m = self.model();
        let mg: usize = if self.scale == 2 {
            18
        } else {
            14
        };
        proof {
            assert(mg == ctx.margin());
        }
        let mut cache = cache;
        let (pn, _, _, _) = dims4_ok(px);
        let mut acc = cvt(zeros_like4(px, pn, 64, 1, 1))?;
        let mut r: usize = 0;
        while r < ht
            invariant
                self.ctx_inv(*px, ctx),
                tile == ctx.tile,
                mg as nat == ctx.margin(),
                ht == ctx.ht,
                wt == ctx.wt,
                pn == ctx.n,
                0 <= r <= ht,
                tensor_dims(*gm0) == mk_dims(ctx.n, 64, 1, 1),
                tensor_bits(*gm0) == gmean0(m, ctx),
                tensor_dims(*gm1) == mk_dims(ctx.n, 128, 1, 1),
                tensor_bits(*gm1) == gmean1(m, ctx),
                tensor_dims(*gm2) == mk_dims(ctx.n, 128, 1, 1),
                tensor_bits(*gm2) == gmean2(m, ctx),
                tensor_dims(acc) == mk_dims(ctx.n, 64, 1, 1),
                tensor_bits(acc) == sum3(m, ctx, r as int * wt as int),
                m == self.model(),
                self.use_cache ==> cache@.len() == ctx.t_count() && (forall|t: int|
                    0 <= t < r as int * wt as int ==> self.cache4_ok(ctx, #[trigger] cache@[t]@, t))
                    && (forall|t: int|
                    r as int * wt as int <= t < ctx.t_count() ==> self.cache3_ok(
                        ctx,
                        #[trigger] cache@[t]@,
                        t,
                    )),
                !self.use_cache ==> cache@.len() == 0,
            decreases ht - r,
        {
            let mut c: usize = 0;
            while c < wt
                invariant
                    self.ctx_inv(*px, ctx),
                    tile == ctx.tile,
                    mg as nat == ctx.margin(),
                mg as nat == ctx.margin(),
                    ht == ctx.ht,
                    wt == ctx.wt,
                    pn == ctx.n,
                    0 <= r < ht,
                    0 <= c <= wt,
                    tensor_dims(*gm0) == mk_dims(ctx.n, 64, 1, 1),
                    tensor_bits(*gm0) == gmean0(m, ctx),
                    tensor_dims(*gm1) == mk_dims(ctx.n, 128, 1, 1),
                    tensor_bits(*gm1) == gmean1(m, ctx),
                    tensor_dims(*gm2) == mk_dims(ctx.n, 128, 1, 1),
                    tensor_bits(*gm2) == gmean2(m, ctx),
                    tensor_dims(acc) == mk_dims(ctx.n, 64, 1, 1),
                    tensor_bits(acc) == sum3(m, ctx, r as int * wt as int + c as int),
                    m == self.model(),
                    self.use_cache ==> cache@.len() == ctx.t_count() && (forall|t: int|
                        0 <= t < r as int * wt as int + c as int ==> self.cache4_ok(
                            ctx,
                            #[trigger] cache@[t]@,
                            t,
                        )) && (forall|t: int|
                        r as int * wt as int + c as int <= t < ctx.t_count() ==> self.cache3_ok(
                            ctx,
                            #[trigger] cache@[t]@,
                            t,
                        )),
                    !self.use_cache ==> cache@.len() == 0,
                decreases wt - c,
            {
                proof {
                    Self::lemma_grid_step(ctx, r as int, c as int);
                }
                let i = r * tile;
                let j = c * tile;
                let idx = r * wt + c;
                let ghost t = r as int * wt as int + c as int;
                let (opt, x1, x4) = if self.use_cache {
                    let e = &cache[idx];
                    let opt = clone_tensor(&e[0]);
                    let x1 = clone_tensor(&e[1]);
                    let x4 = self.tile_s4(&e[2], &e[3], gm2, Ghost(ctx), Ghost(t))?;
                    (opt, x1, x4)
                } else {
                    let (t0, xc) = self.tile_s1(px, i, j, tile + 2 * mg, Ghost(ctx), Ghost(t))?;
                    let (opt, x1, x2) = self.tile_s2(&t0, &xc, gm0, Ghost(ctx), Ghost(t))?;
                    let (x2n, x3) = self.tile_s3(&x2, gm1, Ghost(ctx), Ghost(t))?;
                    let x4 = self.tile_s4(&x2n, &x3, gm2, Ghost(ctx), Ghost(t))?;
                    (opt, x1, x4)
                };
                let mean = cvt(mean23_t(&x4))?;
                let acc2 = cvt(add_t(&acc, &mean))?;
                acc = acc2;
                if self.use_cache {
                    let mut e2: Vec<candle_core::Tensor> = Vec::new();
                    e2.push(opt);
                    e2.push(x1);
                    e2.push(x4);
                    cache[idx] = e2;
                }
                c = c + 1;
            }
            proof {
                assert(r as int * wt as int + wt as int == (r as int + 1) * wt as int)
                    by (nonlinear_arith);
            }
            r = r + 1;
        }
        proof {
            assert(ht as int * wt as int == ctx.t_count() as int) by (nonlinear_arith)
                requires
                    ht == ctx.ht,
                    wt == ctx.wt,
                    ctx.t_count() == ctx.ht * ctx.wt,
            ;
        }
        Ok((acc, cache))
    }

    /// Final pass: gates at gate 4, finishes every tile, and stitches each
    /// finished region into the output buffer at its upsampled coordinates.
    #[verifier::spinoff_prover]
    pub(crate) fn pass5(
        &self,
        px: &candle_core::Tensor,
        tile: usize,
        ht: usize,
        wt: usize,
        cache: Vec<Vec<candle_core::Tensor>>,
        gm0: &candle_core::Tensor,
        gm1: &candle_core::Tensor,
        gm2: &candle_core::Tensor,
        gm3: &candle_core::Tensor,
        Ghost(ctx): Ghost<TileCtx>,
    ) -> (r: Result<candle_core::Tensor, CuganError>)
        requires
            self.ctx_inv(*px, ctx),
            tile == ctx.tile,
            ht == ctx.ht,
            wt == ctx.wt,
            tensor_dims(*gm0) == mk_dims(ctx.n, 64, 1, 1),
            tensor_bits(*gm0) == gmean0(self.model(), ctx),
            tensor_dims(*gm1) == mk_dims(ctx.n, 128, 1, 1),
            tensor_bits(*gm1) == gmean1(self.model(), ctx),
            tensor_dims(*gm2) == mk_dims(ctx.n, 128, 1, 1),
            tensor_bits(*gm2) == gmean2(self.model(), ctx),
            tensor_dims(*gm3) == mk_dims(ctx.n, 64, 1, 1),
            tensor_bits(*gm3) == gmean3(self.model(), ctx),
            self.use_cache ==> cache@.len() == ctx.t_count() && (forall|t: int|
                0 <= t < ctx.t_count() ==> self.cache4_ok(ctx, #[trigger] cache@[t]@, t)),
            !self.use_cache ==> cache@.len() == 0,
        ensures
            match r {
                Ok(res) => {
                    &&& tensor_dims(res) == mk_dims(
                        ctx.n,
                        ctx.c,
                        ctx.buf_h(),
                        ctx.buf_w(),
                    )
                    &&& tensor_bits(res) == outbuf(self.model(), ctx, ctx.t_count() as int)
                },
                Err(e) => e matches CuganError::Compute(_) || e matches CuganError::MissingSeBlock,
            },
    {
        let ghost m = self.model();
        let mg: usize = if self.scale == 2 {
            18
        } else {
            14
        };
        proof {
            assert(mg == ctx.margin());
        }
        let (pn, pc, _, _) = dims4_ok(px);
        let off0 = cvt(int_scalar_like(px, 3))?;
        let off1 = cvt(int_scalar_like(px, 20))?;
        let off = cvt(bdiv_t(&off0, &off1))?;
        let gain0 = cvt(int_scalar_like(px, 2550))?;
        let gain1 = cvt(int_scalar_like(px, 7))?;
        let gain = cvt(bdiv_t(&gain0, &gain1))?;
        let lo = cvt(int_scalar_like(px, 0))?;
        let hi = cvt(int_scalar_like(px, 255))?;
        let ph = ht * tile;
        let pw = wt * tile;
        proof {
            assert(ph as int <= 2 * 40000);
            assert(pw as int <= 2 * 40000);
            assert(self.scale as int * (ht as int * tile as int) == ctx.buf_h())
                by (nonlinear_arith)
                requires
                    ht == ctx.ht,
                    tile == ctx.tile,
                    mg as nat == ctx.margin(),
                mg as nat == ctx.margin(),
                    self.scale == ctx.scale,
                    ctx.buf_h() == ctx.scale * (ctx.ht * ctx.tile),
            ;
            assert(self.scale as int * (wt as int * tile as int) == ctx.buf_w())
                by (nonlinear_arith)
                requires
                    wt == ctx.wt,
                    tile == ctx.tile,
                    mg as nat == ctx.margin(),
                mg as nat == ctx.margin(),
                    self.scale == ctx.scale,
                    ctx.buf_w() == ctx.scale * (ctx.wt * ctx.tile),
            ;
            assert(self.scale as int * ph as int <= 3 * (2 * 40000)) by (nonlinear_arith)
                requires
                    self.scale <= 3,
                    ph <= 2 * 40000,
            ;
            assert(self.scale as int * pw as int <= 3 * (2 * 40000)) by (nonlinear_arith)
                requires
                    self.scale <= 3,
                    pw <= 2 * 40000,
            ;
        }
        let mut res = cvt(zeros_like4(px, pn, pc, self.scale * ph, self.scale * pw))?;
        proof {
            assert(tensor_dims(res) =~= mk_dims(
                ctx.n,
                ctx.c,
                ctx.buf_h(),
                ctx.buf_w(),
            ));
            assert(tensor_bits(res) =~= outbuf(m, ctx, 0)) by {
                assert(zero_bits(
                    mk_dims(
                        ctx.n,
                        ctx.c,
                        (self.scale as int * (ht as int * tile as int)) as nat,
                        (self.scale as int * (wt as int * tile as int)) as nat,
                    ),
                ) =~= zero_bits(mk_dims(ctx.n, ctx.c, ctx.buf_h(), ctx.buf_w())));
            }
        }
        let mut r: usize = 0;
        while r < ht
            invariant
                self.ctx_inv(*px, ctx),
                tile == ctx.tile,
                mg as nat == ctx.margin(),
                ht == ctx.ht,
                wt == ctx.wt,
                pn == ctx.n,
                pc == ctx.c,
                ph == ht * tile,
                pw == wt * tile,
                0 <= r <= ht,
                tensor_dims(*gm0) == mk_dims(ctx.n, 64, 1, 1),
                tensor_bits(*gm0) == gmean0(m, ctx),
                tensor_dims(*gm1) == mk_dims(ctx.n, 128, 1, 1),
                tensor_bits(*gm1) == gmean1(m, ctx),
                tensor_dims(*gm2) == mk_dims(ctx.n, 128, 1, 1),
                tensor_bits(*gm2) == gmean2(m, ctx),
                tensor_dims(*gm3) == mk_dims(ctx.n, 64, 1, 1),
                tensor_bits(*gm3) == gmean3(m, ctx),
                tensor_dims(off) == mk_dims(1, 1, 1, 1),
                tensor_bits(off) == offset_bits(),
                tensor_dims(gain) == mk_dims(1, 1, 1, 1),
                tensor_bits(gain) == gain_bits(),
                tensor_dims(lo) == mk_dims(1, 1, 1, 1),
                tensor_bits(lo) == lo_bits(),
                tensor_dims(hi) == mk_dims(1, 1, 1, 1),
                tensor_bits(hi) == hi_bits(),
                tensor_dims(res) == mk_dims(ctx.n, ctx.c, ctx.buf_h(), ctx.buf_w()),
                tensor_bits(res) == outbuf(m, ctx, r as int * wt as int),
                m == self.model(),
                self.use_cache ==> cache@.len() == ctx.t_count() && (forall|t: int|
                    0 <= t < ctx.t_count() ==> self.cache4_ok(ctx, #[trigger] cache@[t]@, t)),
                !self.use_cache ==> cache@.len() == 0,
            decreases ht - r,
        {
            let mut c: usize = 0;
            while c < wt
                invariant
                    self.ctx_inv(*px, ctx),
                    tile == ctx.tile,
                    mg as nat == ctx.margin(),
                mg as nat == ctx.margin(),
                    ht == ctx.ht,
                    wt == ctx.wt,
                    pn == ctx.n,
                    pc == ctx.c,
                    ph == ht * tile,
                    pw == wt * tile,
                    0 <= r < ht,
                    0 <= c <= wt,
                    tensor_dims(*gm0) == mk_dims(ctx.n, 64, 1, 1),
                    tensor_bits(*gm0) == gmean0(m, ctx),
                    tensor_dims(*gm1) == mk_dims(ctx.n, 128, 1, 1),
                    tensor_bits(*gm1) == gmean1(m, ctx),
                    tensor_dims(*gm2) == mk_dims(ctx.n, 128, 1, 1),
                    tensor_bits(*gm2) == gmean2(m, ctx),
                    tensor_dims(*gm3) == mk_dims(ctx.n, 64, 1, 1),
                    tensor_bits(*gm3) == gmean3(m, ctx),
                    tensor_dims(off) == mk_dims(1, 1, 1, 1),
                    tensor_bits(off) == offset_bits(),
                    tensor_dims(gain) == mk_dims(1, 1, 1, 1),
                    tensor_bits(gain) == gain_bits(),
                    tensor_dims(lo) == mk_dims(1, 1, 1, 1),
                    tensor_bits(lo) == lo_bits(),
                    tensor_dims(hi) == mk_dims(1, 1, 1, 1),
                    tensor_bits(hi) == hi_bits(),
                    tensor_dims(res) == mk_dims(ctx.n, ctx.c, ctx.buf_h(), ctx.buf_w()),
                    tensor_bits(res) == outbuf(m, ctx, r as int * wt as int + c as int),
                    m == self.model(),
                    self.use_cache ==> cache@.len() == ctx.t_count() && (forall|t: int|
                        0 <= t < ctx.t_count() ==> self.cache4_ok(ctx, #[trigger] cache@[t]@, t)),
                    !self.use_cache ==> cache@.len() == 0,
                decreases wt - c,
            {
                proof {
                    Self::lemma_grid_step(ctx, r as int, c as int);
                    lemma_sweep_arith(ctx);
                }
                let i = r * tile;
                let j = c * tile;
                let idx = r * wt + c;
                let ghost t = r as int * wt as int + c as int;
                let y = if self.use_cache {
                    let e = &cache[idx];
                    self.tile_s5(&e[0], &e[1], &e[2], gm3, &off, &gain, &lo, &hi, Ghost(ctx), Ghost(t))?
                } else {
                    let (t0, xc) = self.tile_s1(px, i, j, tile + 2 * mg, Ghost(ctx), Ghost(t))?;
                    let (opt, x1, x2) = self.tile_s2(&t0, &xc, gm0, Ghost(ctx), Ghost(t))?;
                    let (x2n, x3) = self.tile_s3(&x2, gm1, Ghost(ctx), Ghost(t))?;
                    let x4 = self.tile_s4(&x2n, &x3, gm2, Ghost(ctx), Ghost(t))?;
                    self.tile_s5(&opt, &x1, &x4, gm3, &off, &gain, &lo, &hi, Ghost(ctx), Ghost(t))?
                };
                proof {
                    assert(self.scale as int * i as int + ctx.out_e() <= ctx.buf_h())
                        by (nonlinear_arith)
                        requires
                            self.scale == ctx.scale,
                            i as int == ctx.i0(t),
                            ctx.i0(t) + ctx.tile <= ctx.ht * ctx.tile,
                            ctx.out_e() == ctx.scale * ctx.tile,
                            ctx.buf_h() == ctx.scale * (ctx.ht * ctx.tile),
                            ctx.scale >= 2,
                    ;
                    assert(self.scale as int * j as int + ctx.out_e() <= ctx.buf_w())
                        by (nonlinear_arith)
                        requires
                            self.scale == ctx.scale,
                            j as int == ctx.j0(t),
                            ctx.j0(t) + ctx.tile <= ctx.wt * ctx.tile,
                            ctx.out_e() == ctx.scale * ctx.tile,
                            ctx.buf_w() == ctx.scale * (ctx.wt * ctx.tile),
                            ctx.scale >= 2,
                    ;
                    assert(self.scale as int * i as int <= 3 * (2 * 40000)) by (nonlinear_arith)
                        requires
                            self.scale <= 3,
                            0 <= i,
                            i as int <= 2 * 40000,
                    ;
                    assert(self.scale as int * j as int <= 3 * (2 * 40000)) by (nonlinear_arith)
                        requires
                            self.scale <= 3,
                            0 <= j,
                            j as int <= 2 * 40000,
                    ;
                }
                let res2 = cvt(slice_assign4(&res, &y, self.scale * i, self.scale * j))?;
                proof {
                    assert(self.scale as int * i as int == ctx.scale as int * ctx.i0(t));
                    assert(self.scale as int * j as int == ctx.scale as int * ctx.j0(t));
                    assert(tensor_bits(res2) == assign_at(m, ctx, outbuf(m, ctx, t), t));
                }
                res = res2;
                c = c + 1;
            }
            proof {
                assert(r as int * wt as int + wt as int == (r as int + 1) * wt as int)
                    by (nonlinear_arith);
            }
            r = r + 1;
        }
        proof {
            assert(ht as int * wt as int == ctx.t_count() as int) by (nonlinear_arith)
                requires
                    ht == ctx.ht,
                    wt == ctx.wt,
                    ctx.t_count() == ctx.ht * ctx.wt,
            ;
        }
        Ok(res)
    }

}

/// Cache invariance: the tiled result is a function of the model (the two
/// stages and the scalar's contents), the tile grid, and the trim extents
/// alone — two engines that differ only in the caching flag produce the same
/// contents.
pub proof fn lemma_cache_invariance(a: UpCunet2x, b: UpCunet2x, ctx: TileCtx, h0: nat, w0: nat)
    requires
        a.unet1 == b.unet1,
        a.unet2 == b.unet2,
        tensor_bits(a.alpha) == tensor_bits(b.alpha),
    ensures
        tiled_bits(a.model(), ctx, h0, w0) == tiled_bits(b.model(), ctx, h0, w0),
{
    assert(a.model() == b.model());
}

/// For an even padded extent of at least 2, the whole-image pipeline's
/// intermediate extents are even, divisible by 4 where stage B needs it, and
/// large enough for every block.
proof fn lemma_whole_arith(ph: int)
    requires
        ph >= 2,
        ph % 2 == 0,
    ensures
        (ph + 36) % 2 == 0,
        ph + 36 >= 38,
        (2 * ph + 40) % 4 == 0,
        2 * ph + 40 >= 44,
        (2 * ph + 40) - 40 == 2 * ph,
{
    let q = ph / 2;
    vstd::arithmetic::div_mod::lemma_fundamental_div_mod(ph, 2);
    assert(ph == 2 * q);
    assert((2 * 18 + ph) % 2 == ph % 2) by {
        vstd::arithmetic::div_mod::lemma_mod_multiples_vanish(18, ph, 2);
    }
    assert(2 * ph + 40 == 4 * (q + 10)) by (nonlinear_arith)
        requires
            ph == 2 * q,
    ;
    assert((4 * (q + 10)) % 4 == 0) by {
        vstd::arithmetic::div_mod::lemma_mod_multiples_basic(q + 10, 4);
    }
}

} // verus!
