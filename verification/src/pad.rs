//! Reflection padding and its inverse crop.
//!
//! Padding mirrors interior samples outward without duplicating the boundary
//! sample itself: the first mirrored sample is one position inward.  It is
//! used to give edge tiles valid convolution context and to align skip
//! tensors after context-consuming convolutions.

use vstd::prelude::*;

use crate::errors::CuganError;
use crate::grid::{axis_of, bump, cat2_bits, in_range, narrow_bits, restrict_bits, set_axis,
    with_axis, Grid, GridIdx};
use crate::tensor_ops::{cat2, clone_tensor, dims4, narrow, tensor_bits, tensor_dims};

verus! {

/// Source position that reflection padding reads for output position `k`,
/// on an axis of extent `m` padded by `l` on the left: positions below `l`
/// mirror inward (position 0 reads sample `l`), the middle copies, and the
/// tail mirrors back from one position before the last sample.
pub open spec fn reflect_src(m: int, l: int, k: int) -> int {
    if k < l {
        l - k
    } else if k < l + m {
        k - l
    } else {
        m - (k - l - m) - 2
    }
}

/// Contents of the first `e` positions (along `axis`) of a tensor with
/// contents `g` and dimensions `d` reflection-padded by `l` on the left:
/// the loop below grows its result slice by slice up to the padded extent.
pub open spec fn pad_prefix_bits(g: Grid, d: Seq<nat>, axis: int, l: int, e: nat) -> Grid {
    Map::new(
        |k: GridIdx| in_range(with_axis(d, axis, e), k),
        |k: GridIdx| g[set_axis(k, axis, reflect_src(d[axis] as int, l, axis_of(k, axis)))],
    )
}

/// Contents after reflection padding by `l` on the left and `r` on the right.
pub open spec fn pad_bits(g: Grid, d: Seq<nat>, axis: int, l: int, r: int) -> Grid {
    pad_prefix_bits(g, d, axis, l, (d[axis] + l + r) as nat)
}

/// Appending the slice `[s, s+1)` of the source to a pad prefix of extent `e`
/// extends the prefix by one, when `s` is the source position the reflection
/// reads for output position `e`.
proof fn lemma_pad_extend(g: Grid, d: Seq<nat>, axis: int, l: int, e: nat, s: int)
    requires
        d.len() == 4,
        0 <= axis < 4,
        0 <= s,
        s + 1 <= d[axis],
        s == reflect_src(d[axis] as int, l, e as int),
    ensures
        cat2_bits(
            pad_prefix_bits(g, d, axis, l, e),
            with_axis(d, axis, e),
            narrow_bits(g, d, axis, s, 1),
            1,
            axis,
        ) == pad_prefix_bits(g, d, axis, l, (e + 1) as nat),
{
    let lhs = cat2_bits(
        pad_prefix_bits(g, d, axis, l, e),
        with_axis(d, axis, e),
        narrow_bits(g, d, axis, s, 1),
        1,
        axis,
    );
    let rhs = pad_prefix_bits(g, d, axis, l, (e + 1) as nat);
    assert(with_axis(with_axis(d, axis, e), axis, (e + 1) as nat) =~= with_axis(
        d,
        axis,
        (e + 1) as nat,
    ));
    assert forall|k: GridIdx| in_range(with_axis(d, axis, (e + 1) as nat), k) implies lhs[k]
        == rhs[k] by {
        if axis_of(k, axis) < e {
            assert(in_range(with_axis(d, axis, e), k));
        } else {
            let kk = bump(k, axis, -(e as int));
            assert(axis_of(kk, axis) == 0);
            assert(in_range(with_axis(with_axis(d, axis, e), axis, 1nat), kk));
            assert(bump(kk, axis, s) == set_axis(k, axis, s));
        }
    }
    assert(lhs =~= rhs);
}

/// Appending the whole source to the pad prefix of extent `l` (the finished
/// left margin) yields the prefix of extent `l + m`.
proof fn lemma_pad_mid(g: Grid, d: Seq<nat>, axis: int, l: nat)
    requires
        d.len() == 4,
        0 <= axis < 4,
    ensures
        cat2_bits(pad_prefix_bits(g, d, axis, l as int, l), with_axis(d, axis, l), g, d[axis], axis)
            == pad_prefix_bits(g, d, axis, l as int, (l + d[axis]) as nat),
{
    let m = d[axis];
    let lhs = cat2_bits(pad_prefix_bits(g, d, axis, l as int, l), with_axis(d, axis, l), g, m, axis);
    let rhs = pad_prefix_bits(g, d, axis, l as int, (l + m) as nat);
    assert(with_axis(with_axis(d, axis, l), axis, (l + m) as nat) =~= with_axis(
        d,
        axis,
        (l + m) as nat,
    ));
    assert forall|k: GridIdx| in_range(with_axis(d, axis, (l + m) as nat), k) implies lhs[k]
        == rhs[k] by {
        if axis_of(k, axis) < l {
            assert(in_range(with_axis(d, axis, l), k));
        } else {
            assert(bump(k, axis, -(l as int)) == set_axis(
                k,
                axis,
                reflect_src(m as int, l as int, axis_of(k, axis)),
            ));
        }
    }
    assert(lhs =~= rhs);
}

/// Padding then cropping by the same margins returns the original elements:
/// the crop of the padded contents is exactly the original contents (as a
/// map over the tensor's indices).
pub proof fn lemma_pad_crop_round_trip(g: Grid, d: Seq<nat>, axis: int, l: nat, r: nat)
    requires
        d.len() == 4,
        0 <= axis < 4,
        l < d[axis],
        r < d[axis],
    ensures
        narrow_bits(
            pad_bits(g, d, axis, l as int, r as int),
            with_axis(d, axis, (d[axis] + l + r) as nat),
            axis,
            l as int,
            d[axis],
        ) == restrict_bits(g, d),
{
    let m = d[axis] as int;
    let padded_d = with_axis(d, axis, (d[axis] + l + r) as nat);
    let cropped = narrow_bits(
        pad_bits(g, d, axis, l as int, r as int),
        padded_d,
        axis,
        l as int,
        d[axis],
    );
    assert(with_axis(padded_d, axis, d[axis]) =~= d);
    assert forall|k: GridIdx| in_range(d, k) implies cropped[k] == restrict_bits(g, d)[k] by {
        let kk = bump(k, axis, l as int);
        assert(in_range(padded_d, kk));
        assert(reflect_src(m, l as int, axis_of(kk, axis)) == axis_of(k, axis));
        assert(set_axis(kk, axis, axis_of(k, axis)) == k);
    }
    assert(cropped =~= restrict_bits(g, d));
}

/// Extends a rank-4 tensor along `axis` by mirroring `left` and `right`
/// interior samples outward; margins the extent cannot mirror are rejected.
pub fn reflection_pad(
    t: &candle_core::Tensor,
    axis: usize,
    left: usize,
    right: usize,
) -> (res: Result<candle_core::Tensor, CuganError>)
    ensures
        match res {
            Ok(y) => {
                &&& tensor_dims(*t).len() == 4
                &&& axis < 4
                &&& left < tensor_dims(*t)[axis as int] || (left == 0 && tensor_dims(*t)[
                    axis as int
                ] == 0)
                &&& right < tensor_dims(*t)[axis as int] || (right == 0 && tensor_dims(*t)[
                    axis as int
                ] == 0)
                &&& tensor_dims(y) == with_axis(
                    tensor_dims(*t),
                    axis as int,
                    (tensor_dims(*t)[axis as int] + left + right) as nat,
                )
                &&& tensor_bits(y) == pad_bits(
                    tensor_bits(*t),
                    tensor_dims(*t),
                    axis as int,
                    left as int,
                    right as int,
                )
            },
            Err(e) => true,
        },
        tensor_dims(*t).len() != 4 || axis >= 4 ==> res matches Err(CuganError::ShapeMismatch),
        tensor_dims(*t).len() == 4 && axis < 4 ==> !(res matches Err(CuganError::ShapeMismatch)),
        tensor_dims(*t).len() == 4 && axis < 4 && (left > 0 || right > 0) && (left >= tensor_dims(
            *t,
        )[axis as int] || right >= tensor_dims(*t)[axis as int]) ==> res matches Err(
            CuganError::InvalidInput,
        ),
{
    let (dn, dc, dh, dw) = match dims4(t) {
        Ok(d) => d,
        Err(_) => {
            return Err(CuganError::ShapeMismatch);
        },
    };
    if axis >= 4 {
        return Err(CuganError::ShapeMismatch);
    }
    let m: usize = if axis == 0 {
        dn
    } else if axis == 1 {
        dc
    } else if axis == 2 {
        dh
    } else {
        dw
    };
    let ghost d = tensor_dims(*t);
    let ghost g = tensor_bits(*t);
    assert(m == d[axis as int]);
    if left == 0 && right == 0 {
        let y = clone_tensor(t);
        proof {
            assert(with_axis(d, axis as int, m as nat) =~= d);
            assert(tensor_bits(y) =~= pad_bits(g, d, axis as int, 0, 0)) by {
                let p = pad_bits(g, d, axis as int, 0, 0);
                assert forall|k: GridIdx| in_range(d, k) implies p[k] == g[k] by {
                    assert(reflect_src(m as int, 0, axis_of(k, axis as int)) == axis_of(
                        k,
                        axis as int,
                    ));
                    assert(set_axis(k, axis as int, axis_of(k, axis as int)) == k);
                }
                assert(p.dom() =~= g.dom());
            }
        }
        return Ok(y);
    }
    if left >= m || right >= m {
        return Err(CuganError::InvalidInput);
    }
    if usize::MAX - m < left || usize::MAX - m - left < right {
        return Err(CuganError::InvalidInput);
    }
    let mut acc: candle_core::Tensor;
    let mut e: usize;
    if left > 0 {
        acc = narrow(t, axis, left, 1);
        e = 1;
        proof {
            lemma_first_piece(g, d, axis as int, left as int);
        }
    } else {
        acc = clone_tensor(t);
        e = m;
        proof {
            assert(tensor_bits(acc) =~= pad_prefix_bits(g, d, axis as int, 0, m as nat)) by {
                let p = pad_prefix_bits(g, d, axis as int, 0, m as nat);
                assert(with_axis(d, axis as int, m as nat) =~= d);
                assert forall|k: GridIdx| in_range(d, k) implies p[k] == g[k] by {
                    assert(reflect_src(m as int, 0, axis_of(k, axis as int)) == axis_of(
                        k,
                        axis as int,
                    ));
                    assert(set_axis(k, axis as int, axis_of(k, axis as int)) == k);
                }
                assert(p.dom() =~= g.dom());
            }
            assert(with_axis(d, axis as int, m as nat) =~= d);
        }
    }
    let mut i: usize = 1;
    while i < left
        invariant
            1 <= i <= left || (left == 0 && i == 1),
            left < m,
            right < m,
            axis < 4,
            e == if left > 0 { i } else { m },
            tensor_dims(*t) == d,
            tensor_bits(*t) == g,
            d.len() == 4,
            m == d[axis as int],
            tensor_dims(acc) == with_axis(d, axis as int, e as nat),
            tensor_bits(acc) == pad_prefix_bits(g, d, axis as int, left as int, e as nat),
        decreases left - i,
    {
        let piece = narrow(t, axis, left - i, 1);
        let joined = match cat2(&acc, &piece, axis) {
            Ok(y) => y,
            Err(err) => {
                return Err(CuganError::Compute(err));
            },
        };
        proof {
            lemma_pad_extend(g, d, axis as int, left as int, e as nat, left - i);
        }
        acc = joined;
        e = e + 1;
        i = i + 1;
    }
    if left > 0 {
        let joined = match cat2(&acc, t, axis) {
            Ok(y) => y,
            Err(err) => {
                return Err(CuganError::Compute(err));
            },
        };
        proof {
            lemma_pad_mid(g, d, axis as int, left as nat);
            assert(with_axis(with_axis(d, axis as int, left as nat), axis as int, (left + m) as nat)
                =~= with_axis(d, axis as int, (left + m) as nat));
        }
        acc = joined;
        e = e + m;
    }
    let mut j: usize = 0;
    while j < right
        invariant
            0 <= j <= right,
            right < m,
            left < m,
            axis < 4,
            e == left + m + j,
            tensor_dims(*t) == d,
            tensor_bits(*t) == g,
            d.len() == 4,
            m == d[axis as int],
            e <= usize::MAX - right + j,
            tensor_dims(acc) == with_axis(d, axis as int, e as nat),
            tensor_bits(acc) == pad_prefix_bits(g, d, axis as int, left as int, e as nat),
        decreases right - j,
    {
        let piece = narrow(t, axis, m - j - 2, 1);
        let joined = match cat2(&acc, &piece, axis) {
            Ok(y) => y,
            Err(err) => {
                return Err(CuganError::Compute(err));
            },
        };
        proof {
            lemma_pad_extend(g, d, axis as int, left as int, e as nat, m - j - 2);
        }
        acc = joined;
        e = e + 1;
        j = j + 1;
    }
    Ok(acc)
}

/// The first mirrored slice (output position 0 reads source position `l`)
/// is the pad prefix of extent 1.
proof fn lemma_first_piece(g: Grid, d: Seq<nat>, axis: int, l: int)
    requires
        d.len() == 4,
        0 <= axis < 4,
        0 < l < d[axis],
    ensures
        narrow_bits(g, d, axis, l, 1) == pad_prefix_bits(g, d, axis, l, 1),
{
    let lhs = narrow_bits(g, d, axis, l, 1);
    let rhs = pad_prefix_bits(g, d, axis, l, 1);
    assert forall|k: GridIdx| in_range(with_axis(d, axis, 1nat), k) implies lhs[k] == rhs[k] by {
        assert(axis_of(k, axis) == 0);
        assert(reflect_src(d[axis] as int, l, 0) == l);
        assert(bump(k, axis, l) == set_axis(k, axis, l));
    }
    assert(lhs =~= rhs);
}

/// One reflection-padding step of the engines: the fixed near-edge context
/// margin `left` and the computed far-edge margin `right`; a margin the
/// extent cannot mirror is an invalid input, and backend failures pass
/// through unchanged.
pub(crate) fn pad_edge(
    t: &candle_core::Tensor,
    axis: usize,
    left: usize,
    right: usize,
) -> (res: Result<candle_core::Tensor, CuganError>)
    requires
        tensor_dims(*t).len() == 4,
        axis < 4,
    ensures
        match res {
            Ok(y) => {
                &&& left < tensor_dims(*t)[axis as int] || (left == 0 && tensor_dims(*t)[
                    axis as int
                ] == 0)
                &&& right < tensor_dims(*t)[axis as int] || (right == 0 && tensor_dims(*t)[
                    axis as int
                ] == 0)
                &&& tensor_dims(y) == with_axis(
                    tensor_dims(*t),
                    axis as int,
                    (tensor_dims(*t)[axis as int] + left + right) as nat,
                )
                &&& tensor_bits(y) == pad_bits(
                    tensor_bits(*t),
                    tensor_dims(*t),
                    axis as int,
                    left as int,
                    right as int,
                )
            },
            Err(e) => e matches CuganError::Compute(_) || e matches CuganError::InvalidInput,
        },
{
    match reflection_pad(t, axis, left, right) {
        Ok(y) => Ok(y),
        Err(CuganError::Compute(e)) => Err(CuganError::Compute(e)),
        Err(_) => Err(CuganError::InvalidInput),
    }
}

/// The inverse crop: removes `left` and `right` positions along `axis`.
pub fn crop(t: &candle_core::Tensor, axis: usize, left: usize, right: usize) -> (res: Result<
    candle_core::Tensor,
    CuganError,
>)
    ensures
        match res {
            Ok(y) => {
                &&& tensor_dims(*t).len() == 4
                &&& axis < 4
                &&& left + right <= tensor_dims(*t)[axis as int]
                &&& tensor_dims(y) == with_axis(
                    tensor_dims(*t),
                    axis as int,
                    (tensor_dims(*t)[axis as int] - left - right) as nat,
                )
                &&& tensor_bits(y) == narrow_bits(
                    tensor_bits(*t),
                    tensor_dims(*t),
                    axis as int,
                    left as int,
                    (tensor_dims(*t)[axis as int] - left - right) as nat,
                )
            },
            Err(e) => !(tensor_dims(*t).len() == 4 && axis < 4 && left + right <= tensor_dims(*t)[
                axis as int
            ]),
        },
{
    let (dn, dc, dh, dw) = match dims4(t) {
        Ok(d) => d,
        Err(_) => {
            return Err(CuganError::ShapeMismatch);
        },
    };
    if axis >= 4 {
        return Err(CuganError::ShapeMismatch);
    }
    let m: usize = if axis == 0 {
        dn
    } else if axis == 1 {
        dc
    } else if axis == 2 {
        dh
    } else {
        dw
    };
    if left > m || right > m - left {
        return Err(CuganError::InvalidInput);
    }
    Ok(narrow(t, axis, left, m - left - right))
}

} // verus!
