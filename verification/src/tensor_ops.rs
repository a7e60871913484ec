//! The trusted boundary to the tensor backend.
//!
//! Everything the library knows about a backend tensor is phrased through two
//! observers: `tensor_dims`, the dimension vector, and `tensor_bits`, the map
//! from element index to the bit pattern of the stored 32-bit float.  Each
//! wrapper below makes exactly one backend call and states, over those
//! observers, what the backend's source shows about the call.

use vstd::prelude::*;

use crate::grid::{assign_bits, cat2_bits, in_range, mk_dims, narrow_bits, zero_bits, Grid,
    GridIdx};

verus! {

#[verifier::external_type_specification]
#[verifier::external_body]
pub struct ExTensor(candle_core::Tensor);

#[verifier::external_type_specification]
#[verifier::external_body]
pub struct ExError(candle_core::Error);

#[verifier::external_type_specification]
#[verifier::external_body]
pub struct ExDevice(candle_core::Device);

#[verifier::external_type_specification]
#[verifier::external_body]
pub struct ExConv2d(candle_nn::Conv2d);

#[verifier::external_type_specification]
#[verifier::external_body]
pub struct ExConvTranspose2d(candle_nn::ConvTranspose2d);

/// The geometry a 2-d convolution layer was built with.
pub ghost struct ConvGeom {
    pub in_c: nat,
    pub out_c: nat,
    pub k: nat,
    pub pad: nat,
    pub stride: nat,
    pub dilation: nat,
    pub groups: nat,
}

/// The geometry a transposed 2-d convolution layer was built with.
pub ghost struct ConvTGeom {
    pub in_c: nat,
    pub out_c: nat,
    pub k: nat,
    pub pad: nat,
    pub out_pad: nat,
    pub stride: nat,
    pub dilation: nat,
}

/// The kernel shape and configuration of a convolution layer.
pub uninterp spec fn conv2d_geom(c: candle_nn::Conv2d) -> ConvGeom;

/// What Conv2d::forward returns: a function of the layer (its weights and
/// configuration) and the input elements alone.
pub uninterp spec fn conv2d_fwd_bits(c: candle_nn::Conv2d, x: Grid) -> Grid;

/// The kernel shape and configuration of a transposed convolution layer.
pub uninterp spec fn convt2d_geom(c: candle_nn::ConvTranspose2d) -> ConvTGeom;

/// What ConvTranspose2d::forward returns: a function of the layer and the
/// input elements alone.
pub uninterp spec fn convt2d_fwd_bits(c: candle_nn::ConvTranspose2d, x: Grid) -> Grid;

/// What candle_nn::ops::sigmoid returns, elementwise on the input bits.
pub uninterp spec fn sigmoid_bits(x: Grid) -> Grid;

/// What Tensor::relu returns, elementwise on the input bits.
pub uninterp spec fn relu_bits(x: Grid) -> Grid;

/// What Tensor::broadcast_minimum returns on the input bits.
pub uninterp spec fn bmin_bits(a: Grid, b: Grid) -> Grid;

/// What Tensor::broadcast_maximum returns on the input bits.
pub uninterp spec fn bmax_bits(a: Grid, b: Grid) -> Grid;

/// What Tensor::add returns on two same-shape inputs' bits.
pub uninterp spec fn add_bits(a: Grid, b: Grid) -> Grid;

/// What Tensor::broadcast_mul returns on the input bits.
pub uninterp spec fn bmul_bits(a: Grid, b: Grid) -> Grid;

/// What Tensor::broadcast_sub returns on the input bits.
pub uninterp spec fn bsub_bits(a: Grid, b: Grid) -> Grid;

/// What Tensor::broadcast_div returns on the input bits.
pub uninterp spec fn bdiv_bits(a: Grid, b: Grid) -> Grid;

/// What Tensor::round returns, elementwise on the input bits.
pub uninterp spec fn round_bits(x: Grid) -> Grid;

/// What Tensor::mean_keepdim over the two spatial axes returns.
pub uninterp spec fn mean23_bits(x: Grid) -> Grid;

/// The bit pattern of a 64-bit integer converted to a 32-bit float.
pub uninterp spec fn f32_bits_of_i64(v: int) -> u32;

/// Contents of the 1x1x1x1 tensor holding `v` converted to a 32-bit float.
pub open spec fn scalar_bits(v: int) -> Grid {
    Map::new(
        |k: GridIdx| in_range(mk_dims(1, 1, 1, 1), k),
        |k: GridIdx| f32_bits_of_i64(v),
    )
}

/// The dimension vector of a backend tensor.
pub uninterp spec fn tensor_dims(t: candle_core::Tensor) -> Seq<nat>;

/// The elements a backend tensor holds: the IEEE-754 bit pattern of each
/// 32-bit float, keyed by (batch, channel, row, column), for rank-4 tensors.
pub uninterp spec fn tensor_bits(t: candle_core::Tensor) -> Grid;

/// The contents observer holds exactly the tensor's own indices: the domain
/// of `tensor_bits` is the index set of `tensor_dims`.
pub open spec fn bits_dom_ok(t: candle_core::Tensor) -> bool {
    tensor_bits(t).dom() == Set::new(|k: GridIdx| in_range(tensor_dims(t), k))
}

/// Relies on Tensor::dims4: returns the four extents exactly when the rank is
/// 4.  Also states the observers' convention (`bits_dom_ok`) for this tensor.
#[verifier::external_body]
pub(crate) fn dims4(t: &candle_core::Tensor) -> (r: Result<
    (usize, usize, usize, usize),
    candle_core::Error,
>)
    ensures
        match r {
            Ok((n, c, h, w)) => tensor_dims(*t) == mk_dims(
                n as nat,
                c as nat,
                h as nat,
                w as nat,
            ) && bits_dom_ok(*t),
            Err(_) => tensor_dims(*t).len() != 4,
        },
{
    t.dims4()
}

/// The four extents of a tensor already known to have rank 4 (verified; the
/// failure branch of `dims4` is unreachable under the precondition).
pub(crate) fn dims4_ok(t: &candle_core::Tensor) -> (r: (usize, usize, usize, usize))
    requires
        tensor_dims(*t).len() == 4,
    ensures
        tensor_dims(*t) == mk_dims(r.0 as nat, r.1 as nat, r.2 as nat, r.3 as nat),
        bits_dom_ok(*t),
{
    match dims4(t) {
        Ok(d) => d,
        Err(_) => {
            assert(false);
            (0, 0, 0, 0)
        },
    }
}

/// Relies on Tensor::narrow: a slice of length `len` starting at `start`
/// along `axis`, which succeeds whenever the slice lies within the tensor.
#[verifier::external_body]
pub(crate) fn narrow(t: &candle_core::Tensor, axis: usize, start: usize, len: usize) -> (r:
    candle_core::Tensor)
    requires
        tensor_dims(*t).len() == 4,
        axis < 4,
        start + len <= tensor_dims(*t)[axis as int],
    ensures
        tensor_dims(r) == crate::grid::with_axis(tensor_dims(*t), axis as int, len as nat),
        tensor_bits(r) == narrow_bits(
            tensor_bits(*t),
            tensor_dims(*t),
            axis as int,
            start as int,
            len as nat,
        ),
{
    t.narrow(axis, start, len).unwrap()
}

/// Relies on Tensor::clone: a clone shares the same shape and elements.
#[verifier::external_body]
pub(crate) fn clone_tensor(t: &candle_core::Tensor) -> (r: candle_core::Tensor)
    ensures
        tensor_dims(r) == tensor_dims(*t),
        tensor_bits(r) == tensor_bits(*t),
{
    t.clone()
}

/// Relies on Tensor::cat on two tensors: concatenation along `axis`, keeping
/// the first tensor's elements first.
#[verifier::external_body]
pub(crate) fn cat2(a: &candle_core::Tensor, b: &candle_core::Tensor, axis: usize) -> (r: Result<
    candle_core::Tensor,
    candle_core::Error,
>)
    requires
        tensor_dims(*a).len() == 4,
        tensor_dims(*b).len() == 4,
        axis < 4,
        forall|i: int|
            0 <= i < 4 && i != axis ==> tensor_dims(*a)[i] == tensor_dims(*b)[i],
    ensures
        match r {
            Ok(y) => {
                &&& tensor_dims(y) == crate::grid::with_axis(
                    tensor_dims(*a),
                    axis as int,
                    (tensor_dims(*a)[axis as int] + tensor_dims(*b)[axis as int]) as nat,
                )
                &&& tensor_bits(y) == cat2_bits(
                    tensor_bits(*a),
                    tensor_dims(*a),
                    tensor_bits(*b),
                    tensor_dims(*b)[axis as int],
                    axis as int,
                )
            },
            Err(_) => true,
        },
{
    candle_core::Tensor::cat(&[a, b], axis)
}

/// Relies on Tensor::zeros: a fresh all-zero 32-bit float tensor on the same
/// device as `t`.
#[verifier::external_body]
pub(crate) fn zeros_like4(t: &candle_core::Tensor, n: usize, c: usize, h: usize, w: usize) -> (r:
    Result<candle_core::Tensor, candle_core::Error>)
    ensures
        match r {
            Ok(y) => {
                &&& tensor_dims(y) == mk_dims(n as nat, c as nat, h as nat, w as nat)
                &&& tensor_bits(y) == zero_bits(mk_dims(n as nat, c as nat, h as nat, w as nat))
            },
            Err(_) => true,
        },
{
    candle_core::Tensor::zeros((n, c, h, w), candle_core::DType::F32, t.device())
}

/// Relies on Tensor::slice_assign: a copy of `dst` whose block of `sh` rows
/// and `sw` columns starting at (`i0`, `j0`) is replaced by `src`.
#[verifier::external_body]
pub(crate) fn slice_assign4(
    dst: &candle_core::Tensor,
    src: &candle_core::Tensor,
    i0: usize,
    j0: usize,
) -> (r: Result<candle_core::Tensor, candle_core::Error>)
    requires
        tensor_dims(*dst).len() == 4,
        tensor_dims(*src).len() == 4,
        tensor_dims(*src)[0] == tensor_dims(*dst)[0],
        tensor_dims(*src)[1] == tensor_dims(*dst)[1],
        1 <= tensor_dims(*src)[0],
        1 <= tensor_dims(*src)[1],
        1 <= tensor_dims(*src)[2],
        1 <= tensor_dims(*src)[3],
        i0 + tensor_dims(*src)[2] <= tensor_dims(*dst)[2],
        j0 + tensor_dims(*src)[3] <= tensor_dims(*dst)[3],
    ensures
        match r {
            Ok(y) => {
                &&& tensor_dims(y) == tensor_dims(*dst)
                &&& tensor_bits(y) == assign_bits(
                    tensor_bits(*dst),
                    tensor_dims(*dst),
                    tensor_bits(*src),
                    i0 as int,
                    j0 as int,
                    tensor_dims(*src)[2],
                    tensor_dims(*src)[3],
                )
            },
            Err(_) => true,
        },
{
    let (n, c, sh, sw) = src.dims4()?;
    dst.slice_assign(&[0..n, 0..c, i0..i0 + sh, j0..j0 + sw], src)
}

/// `b`'s dimensions broadcast into `a`'s: equal, or 1, at every axis.
pub open spec fn broadcasts_into(b: Seq<nat>, a: Seq<nat>) -> bool {
    &&& a.len() == 4
    &&& b.len() == 4
    &&& forall|i: int| 0 <= i < 4 ==> b[i] == a[i] || b[i] == 1
}

/// Relies on Conv2d::forward: a valid 2-d convolution of the stored kernel
/// over the input, plus the stored bias.
#[verifier::external_body]
pub(crate) fn conv2d_forward(c: &candle_nn::Conv2d, x: &candle_core::Tensor) -> (r: Result<
    candle_core::Tensor,
    candle_core::Error,
>)
    requires
        tensor_dims(*x).len() == 4,
        tensor_dims(*x)[1] == conv2d_geom(*c).in_c,
        conv2d_geom(*c).dilation == 1,
        conv2d_geom(*c).groups == 1,
        conv2d_geom(*c).k >= 1,
        conv2d_geom(*c).stride >= 1,
        tensor_dims(*x)[2] + 2 * conv2d_geom(*c).pad >= conv2d_geom(*c).k,
        tensor_dims(*x)[3] + 2 * conv2d_geom(*c).pad >= conv2d_geom(*c).k,
    ensures
        match r {
            Ok(y) => {
                &&& tensor_dims(y) == mk_dims(
                    tensor_dims(*x)[0],
                    conv2d_geom(*c).out_c,
                    ((tensor_dims(*x)[2] + 2 * conv2d_geom(*c).pad - conv2d_geom(*c).k) as int
                        / conv2d_geom(*c).stride as int + 1) as nat,
                    ((tensor_dims(*x)[3] + 2 * conv2d_geom(*c).pad - conv2d_geom(*c).k) as int
                        / conv2d_geom(*c).stride as int + 1) as nat,
                )
                &&& tensor_bits(y) == conv2d_fwd_bits(*c, tensor_bits(*x))
            },
            Err(_) => true,
        },
{
    candle_core::Module::forward(c, x)
}

/// Relies on ConvTranspose2d::forward: a transposed 2-d convolution of the
/// stored kernel over the input, plus the stored bias.
#[verifier::external_body]
pub(crate) fn convt2d_forward(c: &candle_nn::ConvTranspose2d, x: &candle_core::Tensor) -> (r:
    Result<candle_core::Tensor, candle_core::Error>)
    requires
        tensor_dims(*x).len() == 4,
        tensor_dims(*x)[1] == convt2d_geom(*c).in_c,
        tensor_dims(*x)[2] >= 1,
        tensor_dims(*x)[3] >= 1,
        convt2d_geom(*c).k >= 1,
        convt2d_geom(*c).stride >= 1,
        (tensor_dims(*x)[2] - 1) * convt2d_geom(*c).stride + convt2d_geom(*c).dilation * (
        convt2d_geom(*c).k - 1) + convt2d_geom(*c).out_pad + 1 >= 2 * convt2d_geom(*c).pad,
        (tensor_dims(*x)[3] - 1) * convt2d_geom(*c).stride + convt2d_geom(*c).dilation * (
        convt2d_geom(*c).k - 1) + convt2d_geom(*c).out_pad + 1 >= 2 * convt2d_geom(*c).pad,
    ensures
        match r {
            Ok(y) => {
                &&& tensor_dims(y) == mk_dims(
                    tensor_dims(*x)[0],
                    convt2d_geom(*c).out_c,
                    ((tensor_dims(*x)[2] - 1) * convt2d_geom(*c).stride + convt2d_geom(*c).dilation
                        * (convt2d_geom(*c).k - 1) + convt2d_geom(*c).out_pad + 1 - 2 * convt2d_geom(
                        *c,
                    ).pad) as nat,
                    ((tensor_dims(*x)[3] - 1) * convt2d_geom(*c).stride + convt2d_geom(*c).dilation
                        * (convt2d_geom(*c).k - 1) + convt2d_geom(*c).out_pad + 1 - 2 * convt2d_geom(
                        *c,
                    ).pad) as nat,
                )
                &&& tensor_bits(y) == convt2d_fwd_bits(*c, tensor_bits(*x))
            },
            Err(_) => true,
        },
{
    candle_core::Module::forward(c, x)
}

/// A hierarchical store of named weight tensors, wrapping the backend's
/// variable builder (whose type Verus cannot declare: it is an alias over a
/// boxed trait object).
#[verifier::external_body]
pub struct WeightSource {
    vb: candle_nn::VarBuilder<'static>,
}

impl WeightSource {
    /// Relies on VarBuilder::from_tensors: a store answering lookups from the
    /// given name-to-tensor table, as 32-bit floats on the given device.
    #[verifier::external_body]
    pub fn from_tensors(
        ts: std::collections::HashMap<String, candle_core::Tensor>,
        dev: &candle_core::Device,
    ) -> WeightSource {
        WeightSource { vb: candle_nn::VarBuilder::from_tensors(ts, candle_core::DType::F32, dev) }
    }

    /// Relies on VarBuilder::zeros: a store answering every lookup with an
    /// all-zero tensor of the requested shape.
    #[verifier::external_body]
    pub fn from_zeros(dev: &candle_core::Device) -> WeightSource {
        WeightSource { vb: candle_nn::VarBuilder::zeros(candle_core::DType::F32, dev) }
    }

    /// Relies on VarBuilder::push_prefix: the same store narrowed to the
    /// sub-scope `name`.
    #[verifier::external_body]
    pub fn pp(&self, name: &str) -> WeightSource {
        WeightSource { vb: self.vb.pp(name) }
    }
}

/// Relies on candle_nn::conv2d: loads weight (out, in, k, k) and bias from
/// the store and builds a layer with the given padding and stride, dilation
/// and groups 1.
#[verifier::external_body]
pub(crate) fn load_conv2d(
    vb: &WeightSource,
    name: &str,
    in_c: usize,
    out_c: usize,
    k: usize,
    pad: usize,
    stride: usize,
) -> (r: Result<candle_nn::Conv2d, candle_core::Error>)
    ensures
        match r {
            Ok(c) => conv2d_geom(c) == (ConvGeom {
                in_c: in_c as nat,
                out_c: out_c as nat,
                k: k as nat,
                pad: pad as nat,
                stride: stride as nat,
                dilation: 1,
                groups: 1,
            }),
            Err(_) => true,
        },
{
    let cfg = candle_nn::Conv2dConfig { padding: pad, stride, ..Default::default() };
    candle_nn::conv2d(in_c, out_c, k, cfg, vb.vb.pp(name))
}

/// Relies on candle_nn::conv2d_no_bias: as load_conv2d, without a bias.
#[verifier::external_body]
pub(crate) fn load_conv2d_no_bias(
    vb: &WeightSource,
    name: &str,
    in_c: usize,
    out_c: usize,
    k: usize,
    pad: usize,
    stride: usize,
) -> (r: Result<candle_nn::Conv2d, candle_core::Error>)
    ensures
        match r {
            Ok(c) => conv2d_geom(c) == (ConvGeom {
                in_c: in_c as nat,
                out_c: out_c as nat,
                k: k as nat,
                pad: pad as nat,
                stride: stride as nat,
                dilation: 1,
                groups: 1,
            }),
            Err(_) => true,
        },
{
    let cfg = candle_nn::Conv2dConfig { padding: pad, stride, ..Default::default() };
    candle_nn::conv2d_no_bias(in_c, out_c, k, cfg, vb.vb.pp(name))
}

/// Relies on candle_nn::conv_transpose2d: loads weight (in, out, k, k) and
/// bias from the store and builds a layer with the given padding and stride,
/// output padding 0 and dilation 1.
#[verifier::external_body]
pub(crate) fn load_conv_transpose2d(
    vb: &WeightSource,
    name: &str,
    in_c: usize,
    out_c: usize,
    k: usize,
    pad: usize,
    stride: usize,
) -> (r: Result<candle_nn::ConvTranspose2d, candle_core::Error>)
    ensures
        match r {
            Ok(c) => convt2d_geom(c) == (ConvTGeom {
                in_c: in_c as nat,
                out_c: out_c as nat,
                k: k as nat,
                pad: pad as nat,
                out_pad: 0,
                stride: stride as nat,
                dilation: 1,
            }),
            Err(_) => true,
        },
{
    let cfg = candle_nn::ConvTranspose2dConfig {
        padding: pad,
        stride,
        ..Default::default()
    };
    candle_nn::conv_transpose2d(in_c, out_c, k, cfg, vb.vb.pp(name))
}

/// Relies on candle_nn::ops::sigmoid: elementwise, shape preserved.
#[verifier::external_body]
pub(crate) fn sigmoid_t(x: &candle_core::Tensor) -> (r: Result<
    candle_core::Tensor,
    candle_core::Error,
>)
    ensures
        match r {
            Ok(y) => tensor_dims(y) == tensor_dims(*x) && tensor_bits(y) == sigmoid_bits(
                tensor_bits(*x),
            ),
            Err(_) => true,
        },
{
    candle_nn::ops::sigmoid(x)
}

/// Relies on Tensor::relu: elementwise, shape preserved.
#[verifier::external_body]
pub(crate) fn relu_t(x: &candle_core::Tensor) -> (r: Result<
    candle_core::Tensor,
    candle_core::Error,
>)
    ensures
        match r {
            Ok(y) => tensor_dims(y) == tensor_dims(*x) && tensor_bits(y) == relu_bits(
                tensor_bits(*x),
            ),
            Err(_) => true,
        },
{
    x.relu()
}

/// Relies on Tensor::broadcast_minimum: elementwise minimum after `b` is
/// broadcast to `a`'s shape.
#[verifier::external_body]
pub(crate) fn bmin_t(a: &candle_core::Tensor, b: &candle_core::Tensor) -> (r: Result<
    candle_core::Tensor,
    candle_core::Error,
>)
    requires
        broadcasts_into(tensor_dims(*b), tensor_dims(*a)),
    ensures
        match r {
            Ok(y) => tensor_dims(y) == tensor_dims(*a) && tensor_bits(y) == bmin_bits(
                tensor_bits(*a),
                tensor_bits(*b),
            ),
            Err(_) => true,
        },
{
    a.broadcast_minimum(b)
}

/// Relies on Tensor::broadcast_maximum: elementwise maximum after `b` is
/// broadcast to `a`'s shape.
#[verifier::external_body]
pub(crate) fn bmax_t(a: &candle_core::Tensor, b: &candle_core::Tensor) -> (r: Result<
    candle_core::Tensor,
    candle_core::Error,
>)
    requires
        broadcasts_into(tensor_dims(*b), tensor_dims(*a)),
    ensures
        match r {
            Ok(y) => tensor_dims(y) == tensor_dims(*a) && tensor_bits(y) == bmax_bits(
                tensor_bits(*a),
                tensor_bits(*b),
            ),
            Err(_) => true,
        },
{
    a.broadcast_maximum(b)
}

/// Relies on Tensor::add: elementwise sum of two same-shape tensors.
#[verifier::external_body]
pub(crate) fn add_t(a: &candle_core::Tensor, b: &candle_core::Tensor) -> (r: Result<
    candle_core::Tensor,
    candle_core::Error,
>)
    requires
        tensor_dims(*a).len() == 4,
        tensor_dims(*b) == tensor_dims(*a),
    ensures
        match r {
            Ok(y) => tensor_dims(y) == tensor_dims(*a) && tensor_bits(y) == add_bits(
                tensor_bits(*a),
                tensor_bits(*b),
            ),
            Err(_) => true,
        },
{
    a + b
}

/// Relies on Tensor::broadcast_mul: elementwise product after `b` is
/// broadcast to `a`'s shape.
#[verifier::external_body]
pub(crate) fn bmul_t(a: &candle_core::Tensor, b: &candle_core::Tensor) -> (r: Result<
    candle_core::Tensor,
    candle_core::Error,
>)
    requires
        broadcasts_into(tensor_dims(*b), tensor_dims(*a)),
    ensures
        match r {
            Ok(y) => tensor_dims(y) == tensor_dims(*a) && tensor_bits(y) == bmul_bits(
                tensor_bits(*a),
                tensor_bits(*b),
            ),
            Err(_) => true,
        },
{
    a.broadcast_mul(b)
}

/// Relies on Tensor::broadcast_sub: elementwise difference after `b` is
/// broadcast to `a`'s shape.
#[verifier::external_body]
pub(crate) fn bsub_t(a: &candle_core::Tensor, b: &candle_core::Tensor) -> (r: Result<
    candle_core::Tensor,
    candle_core::Error,
>)
    requires
        broadcasts_into(tensor_dims(*b), tensor_dims(*a)),
    ensures
        match r {
            Ok(y) => tensor_dims(y) == tensor_dims(*a) && tensor_bits(y) == bsub_bits(
                tensor_bits(*a),
                tensor_bits(*b),
            ),
            Err(_) => true,
        },
{
    a.broadcast_sub(b)
}

/// Relies on Tensor::broadcast_div: elementwise quotient after `b` is
/// broadcast to `a`'s shape.
#[verifier::external_body]
pub(crate) fn bdiv_t(a: &candle_core::Tensor, b: &candle_core::Tensor) -> (r: Result<
    candle_core::Tensor,
    candle_core::Error,
>)
    requires
        broadcasts_into(tensor_dims(*b), tensor_dims(*a)),
    ensures
        match r {
            Ok(y) => tensor_dims(y) == tensor_dims(*a) && tensor_bits(y) == bdiv_bits(
                tensor_bits(*a),
                tensor_bits(*b),
            ),
            Err(_) => true,
        },
{
    a.broadcast_div(b)
}

/// Relies on Tensor::round: elementwise round to nearest, shape preserved.
#[verifier::external_body]
pub(crate) fn round_t(x: &candle_core::Tensor) -> (r: Result<
    candle_core::Tensor,
    candle_core::Error,
>)
    ensures
        match r {
            Ok(y) => tensor_dims(y) == tensor_dims(*x) && tensor_bits(y) == round_bits(
                tensor_bits(*x),
            ),
            Err(_) => true,
        },
{
    x.round()
}

/// Relies on Tensor::mean_keepdim over the two spatial axes: the spatial
/// mean of each feature map, shape (batch, channels, 1, 1).
#[verifier::external_body]
pub(crate) fn mean23_t(x: &candle_core::Tensor) -> (r: Result<
    candle_core::Tensor,
    candle_core::Error,
>)
    requires
        tensor_dims(*x).len() == 4,
        tensor_dims(*x)[2] >= 1,
        tensor_dims(*x)[3] >= 1,
    ensures
        match r {
            Ok(y) => tensor_dims(y) == mk_dims(tensor_dims(*x)[0], tensor_dims(*x)[1], 1, 1)
                && tensor_bits(y) == mean23_bits(tensor_bits(*x)),
            Err(_) => true,
        },
{
    x.mean_keepdim((2, 3))
}

/// Relies on Tensor::from_vec and Tensor::to_dtype: a 1x1x1x1 32-bit float
/// tensor holding the integer `v`, on the same device as `t`.
#[verifier::external_body]
pub(crate) fn int_scalar_like(t: &candle_core::Tensor, v: i64) -> (r: Result<
    candle_core::Tensor,
    candle_core::Error,
>)
    ensures
        match r {
            Ok(y) => tensor_dims(y) == mk_dims(1, 1, 1, 1) && tensor_bits(y) == scalar_bits(
                v as int,
            ) && tensor_bits(y)[(0, 0, 0, 0)] == f32_bits_of_i64(v as int),
            Err(_) => true,
        },
{
    candle_core::Tensor::from_vec(vec![v], (1usize, 1usize, 1usize, 1usize), t.device())?.to_dtype(
        candle_core::DType::F32,
    )
}

} // verus!
