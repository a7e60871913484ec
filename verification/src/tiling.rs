use vstd::prelude::*;

verus! {

/// Smallest multiple of `step` that is at least `n`, for positive `n` and `step`.
pub open spec fn padded_extent_spec(n: nat, step: nat) -> nat
    recommends
        n > 0,
        step > 0,
{
    (((n - 1) / (step as int) + 1) * (step as int)) as nat
}

/// Number of `tile`-sized cells needed to cover an extent of `n`.
pub open spec fn tile_count_spec(n: nat, tile: nat) -> nat
    recommends
        n > 0,
        tile > 0,
{
    ((n - 1) / (tile as int) + 1) as nat
}

pub proof fn lemma_padded_extent(n: nat, step: nat)
    requires
        n > 0,
        step > 0,
    ensures
        padded_extent_spec(n, step) == tile_count_spec(n, step) * step,
        n <= padded_extent_spec(n, step) < n + step,
        padded_extent_spec(n, step) % step == 0,
{
    let q = (n - 1) as int / step as int;
    let rem = (n - 1) as int % step as int;
    vstd::arithmetic::div_mod::lemma_fundamental_div_mod((n - 1) as int, step as int);
    vstd::arithmetic::div_mod::lemma_mod_bound((n - 1) as int, step as int);
    assert((q + 1) * step as int == q * step as int + step as int) by (nonlinear_arith);
    vstd::arithmetic::div_mod::lemma_mod_multiples_basic(q + 1, step as int);
    assert(step as int * (q + 1) == (q + 1) * step as int) by (nonlinear_arith);
}

/// Rounds `n` up to the next multiple of `step`.
pub fn padded_extent(n: usize, step: usize) -> (r: usize)
    requires
        1 <= n,
        1 <= step,
        n + step <= usize::MAX,
    ensures
        r == padded_extent_spec(n as nat, step as nat),
        n <= r < n + step,
        r % step == 0,
{
    proof {
        lemma_padded_extent(n as nat, step as nat);
    }
    ((n - 1) / step + 1) * step
}

/// Number of tiles along one axis of extent `n`.
pub fn tile_count(n: usize, tile: usize) -> (r: usize)
    requires
        1 <= n,
        1 <= tile,
    ensures
        r == tile_count_spec(n as nat, tile as nat),
        r >= 1,
{
    (n - 1) / tile + 1
}

/// A tile at grid position `r` (with `r < count`) starts at `r * tile` and its
/// interior `[r * tile, (r + 1) * tile)` lies inside the padded extent `count * tile`.
pub proof fn lemma_tile_interior_in_bounds(r: nat, count: nat, tile: nat)
    requires
        r < count,
        tile > 0,
    ensures
        r * tile + tile <= count * tile,
        r * tile < count * tile,
{
    assert(r * tile + tile == (r + 1) * tile) by (nonlinear_arith);
    vstd::arithmetic::mul::lemma_mul_inequality(r as int + 1, count as int, tile as int);
    vstd::arithmetic::mul::lemma_mul_strict_inequality(r as int, count as int, tile as int);
}

/// Distinct grid positions give disjoint interiors: the interiors
/// `[r * tile, r * tile + tile)` for `r = 0, 1, ...` do not overlap.
pub proof fn lemma_tile_interiors_disjoint(r1: nat, r2: nat, tile: nat)
    requires
        r1 < r2,
        tile > 0,
    ensures
        r1 * tile + tile <= r2 * tile,
{
    assert(r1 * tile + tile == (r1 + 1) * tile) by (nonlinear_arith);
    vstd::arithmetic::mul::lemma_mul_inequality(r1 as int + 1, r2 as int, tile as int);
}

/// A tile size at least as large as the extent collapses the grid to a
/// single tile, and the padded extent is then exactly one tile.
pub proof fn lemma_oversized_tile(n: nat, tile: nat)
    requires
        1 <= n <= tile,
    ensures
        tile_count_spec(n, tile) == 1,
        padded_extent_spec(n, tile) == tile,
{
    vstd::arithmetic::div_mod::lemma_basic_div((n - 1) as int, tile as int);
    assert((0 + 1) * tile as int == tile) by (nonlinear_arith);
}

/// Row-major index of the tile at grid position (`r`, `c`) in a grid `w_tiles` wide.
pub open spec fn tile_index_spec(r: nat, c: nat, w_tiles: nat) -> nat {
    r * w_tiles + c
}

/// The row-major tile index is within the grid and distinct positions get
/// distinct indices.
pub proof fn lemma_tile_index(r: nat, c: nat, h_tiles: nat, w_tiles: nat)
    requires
        r < h_tiles,
        c < w_tiles,
    ensures
        tile_index_spec(r, c, w_tiles) < h_tiles * w_tiles,
        tile_index_spec(r, c, w_tiles) as int / w_tiles as int == r,
        tile_index_spec(r, c, w_tiles) as int % w_tiles as int == c,
{
    assert(r * w_tiles + c < h_tiles * w_tiles) by (nonlinear_arith)
        requires
            r < h_tiles,
            c < w_tiles,
    ;
    vstd::arithmetic::div_mod::lemma_fundamental_div_mod_converse(
        (r * w_tiles + c) as int,
        w_tiles as int,
        r as int,
        c as int,
    );
}

/// Sum of a sequence of integers.
pub open spec fn seq_sum(s: Seq<int>) -> int
    decreases s.len(),
{
    if s.len() == 0 {
        0
    } else {
        s[0] + seq_sum(s.drop_first())
    }
}

/// Sum of the per-tile sums of a partition of a feature map into tiles.
pub open spec fn sum_of_tile_sums(tiles: Seq<Seq<int>>) -> int
    decreases tiles.len(),
{
    if tiles.len() == 0 {
        0
    } else {
        seq_sum(tiles[0]) + sum_of_tile_sums(tiles.drop_first())
    }
}

proof fn lemma_seq_sum_add(a: Seq<int>, b: Seq<int>)
    ensures
        seq_sum(a + b) == seq_sum(a) + seq_sum(b),
    decreases a.len(),
{
    if a.len() == 0 {
        assert(a + b =~= b);
    } else {
        assert((a + b).drop_first() =~= a.drop_first() + b);
        lemma_seq_sum_add(a.drop_first(), b);
    }
}

/// Mean reconciliation, exact core: when tiles fully partition a feature map
/// (their concatenation is the whole map), the per-tile sums add up to the
/// whole-map sum.  Hence, with N tiles of equal area A, the average of the
/// per-tile means, `(1/N) * sum_t (sum_t / A)`, equals the whole-map mean,
/// `total / (N * A)`: both are `sum_of_tile_sums / (N * A)`.
pub proof fn lemma_mean_reconciliation(tiles: Seq<Seq<int>>)
    ensures
        sum_of_tile_sums(tiles) == seq_sum(tiles.flatten()),
    decreases tiles.len(),
{
    if tiles.len() == 0 {
        assert(tiles.flatten() =~= Seq::<int>::empty());
    } else {
        assert(tiles.flatten() =~= tiles[0] + tiles.drop_first().flatten());
        lemma_seq_sum_add(tiles[0], tiles.drop_first().flatten());
        lemma_mean_reconciliation(tiles.drop_first());
    }
}

/// The divided form of mean reconciliation, for tiles whose sums are exact
/// multiples of the common area `a` (so each tile mean `sum / a` is exact,
/// as is the whole-map mean): the average of the per-tile means equals the
/// whole-map mean.
pub proof fn lemma_mean_of_tile_means(tiles: Seq<Seq<int>>, a: nat, means: Seq<int>)
    requires
        a > 0,
        tiles.len() > 0,
        means.len() == tiles.len(),
        forall|t: int| 0 <= t < tiles.len() ==> #[trigger] tiles[t].len() == a,
        forall|t: int|
            0 <= t < tiles.len() ==> seq_sum(#[trigger] tiles[t]) == means[t] * a,
        seq_sum(means) % (tiles.len() as int) == 0,
    ensures
        seq_sum(means) / (tiles.len() as int) == seq_sum(tiles.flatten()) / (tiles.len()
            * a) as int,
{
    lemma_mean_reconciliation(tiles);
    lemma_sum_scaled(tiles, a, means);
    let n = tiles.len() as int;
    let avg = seq_sum(means) / n;
    assert(seq_sum(means) == avg * n) by {
        vstd::arithmetic::div_mod::lemma_fundamental_div_mod(seq_sum(means), n);
    }
    assert(seq_sum(tiles.flatten()) == (avg * n) * a);
    assert((avg * n) * a == avg * (n * a)) by (nonlinear_arith);
    assert(n * a > 0) by (nonlinear_arith)
        requires
            n > 0,
            a > 0,
    ;
    vstd::arithmetic::div_mod::lemma_div_multiples_vanish(avg, (n * a) as int);
}

proof fn lemma_sum_scaled(tiles: Seq<Seq<int>>, a: nat, means: Seq<int>)
    requires
        means.len() == tiles.len(),
        forall|t: int|
            0 <= t < tiles.len() ==> seq_sum(#[trigger] tiles[t]) == means[t] * a,
    ensures
        sum_of_tile_sums(tiles) == seq_sum(means) * a,
    decreases tiles.len(),
{
    if tiles.len() == 0 {
        assert(seq_sum(means) == 0);
    } else {
        lemma_sum_scaled(tiles.drop_first(), a, means.drop_first());
        assert(seq_sum(means) == means[0] + seq_sum(means.drop_first()));
        assert((means[0] + seq_sum(means.drop_first())) * a == means[0] * a + seq_sum(
            means.drop_first(),
        ) * a) by (nonlinear_arith);
    }
}

} // verus!
