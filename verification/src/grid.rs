use vstd::prelude::*;

verus! {

/// Index of one element of a rank-4 tensor: (batch, channel, row, column).
pub type GridIdx = (int, int, int, int);

/// The elements of a rank-4 tensor, as a map from index to the IEEE-754 bit
/// pattern of the stored 32-bit float.  Contracts over `Grid` values never
/// interpret the bits; they only state which element goes where.
pub type Grid = Map<GridIdx, u32>;

/// The dimension vector [batch, channels, height, width].
pub open spec fn mk_dims(n: nat, c: nat, h: nat, w: nat) -> Seq<nat> {
    seq![n, c, h, w]
}

/// `k` indexes an element of a tensor with dimensions `d`.
pub open spec fn in_range(d: Seq<nat>, k: GridIdx) -> bool {
    &&& d.len() == 4
    &&& 0 <= k.0 < d[0]
    &&& 0 <= k.1 < d[1]
    &&& 0 <= k.2 < d[2]
    &&& 0 <= k.3 < d[3]
}

/// Component `axis` of the index `k`.
pub open spec fn axis_of(k: GridIdx, axis: int) -> int {
    if axis == 0 {
        k.0
    } else if axis == 1 {
        k.1
    } else if axis == 2 {
        k.2
    } else {
        k.3
    }
}

/// `k` with `off` added to component `axis`.
pub open spec fn bump(k: GridIdx, axis: int, off: int) -> GridIdx {
    if axis == 0 {
        (k.0 + off, k.1, k.2, k.3)
    } else if axis == 1 {
        (k.0, k.1 + off, k.2, k.3)
    } else if axis == 2 {
        (k.0, k.1, k.2 + off, k.3)
    } else {
        (k.0, k.1, k.2, k.3 + off)
    }
}

/// Dimensions `d` with component `axis` replaced by `v`.
pub open spec fn with_axis(d: Seq<nat>, axis: int, v: nat) -> Seq<nat> {
    d.update(axis, v)
}

/// `k` with component `axis` set to `v`.
pub open spec fn set_axis(k: GridIdx, axis: int, v: int) -> GridIdx {
    bump(k, axis, v - axis_of(k, axis))
}

/// The restriction of `g` to the indices of a tensor with dimensions `d`.
pub open spec fn restrict_bits(g: Grid, d: Seq<nat>) -> Grid {
    Map::new(|k: GridIdx| in_range(d, k), |k: GridIdx| g[k])
}

/// Contents of a slice of length `len` starting at `start` along `axis`, cut
/// from a tensor with contents `g` and dimensions `d`.
pub open spec fn narrow_bits(g: Grid, d: Seq<nat>, axis: int, start: int, len: nat) -> Grid {
    Map::new(
        |k: GridIdx| in_range(with_axis(d, axis, len), k),
        |k: GridIdx| g[bump(k, axis, start)],
    )
}

/// Contents of the concatenation along `axis` of a tensor with contents `g1`
/// and dimensions `d1` and a second tensor with contents `g2` whose extent
/// along `axis` is `ext2` (all other extents equal).
pub open spec fn cat2_bits(g1: Grid, d1: Seq<nat>, g2: Grid, ext2: nat, axis: int) -> Grid {
    Map::new(
        |k: GridIdx| in_range(with_axis(d1, axis, (d1[axis] + ext2) as nat), k),
        |k: GridIdx|
            if axis_of(k, axis) < d1[axis] {
                g1[k]
            } else {
                g2[bump(k, axis, -(d1[axis] as int))]
            },
    )
}

/// Contents of an all-zero tensor with dimensions `d` (0.0f32 is bit pattern 0).
pub open spec fn zero_bits(d: Seq<nat>) -> Grid {
    Map::new(|k: GridIdx| in_range(d, k), |k: GridIdx| 0u32)
}

/// Contents of a tensor with dimensions `d` and contents `dst` after the block
/// starting at row `i0`, column `j0` is replaced by a tensor with contents
/// `src`, `sh` rows and `sw` columns.
pub open spec fn assign_bits(
    dst: Grid,
    d: Seq<nat>,
    src: Grid,
    i0: int,
    j0: int,
    sh: nat,
    sw: nat,
) -> Grid {
    Map::new(
        |k: GridIdx| in_range(d, k),
        |k: GridIdx|
            if i0 <= k.2 < i0 + sh && j0 <= k.3 < j0 + sw {
                src[(k.0, k.1, k.2 - i0, k.3 - j0)]
            } else {
                dst[k]
            },
    )
}

} // verus!
