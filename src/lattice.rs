//! The lattice of sample points: `n³` grid indices in flattened order, the
//! color of each, and the exact position of each in model space.
//!
//! With `pad = 1 / (2n)` and `size = (n - 1) * pad`, the model-space position
//! of index `(ix, iy, iz)` is `(ix * pad - size / 2, iy * pad - size / 2,
//! z_start + iz * pad)`. Every such coordinate is a whole number of units of
//! `1 / (4n)`, which is how this module states them.

use vstd::prelude::*;
use vstd::arithmetic::div_mod::{
    lemma_div_denominator,
    lemma_div_is_ordered,
    lemma_div_by_multiple,
    lemma_fundamental_div_mod,
    lemma_fundamental_div_mod_converse,
};
use crate::color::Color;

verus! {

/// The grid index of one lattice point; each coordinate lies in `[0, n)`.
#[derive(Clone, Copy, Debug, PartialEq, Eq, Structural)]
pub struct LatticePoint {
    pub ix: usize,
    pub iy: usize,
    pub iz: usize,
}

/// `n³` points can be counted, and so indexed, in a `usize`.
pub open spec fn fits(n: int) -> bool {
    0 <= n && n * n * n <= usize::MAX
}

/// The grid index lies in `[0, n)³`.
pub open spec fn in_grid(n: int, p: LatticePoint) -> bool {
    p.ix < n && p.iy < n && p.iz < n
}

/// The flattened index `ix * n² + iy * n + iz`.
pub open spec fn flat(n: int, p: LatticePoint) -> int {
    p.ix * (n * n) + p.iy * n + p.iz
}

/// The grid index whose flattened index is `k`.
pub open spec fn point_of(n: int, k: int) -> LatticePoint {
    LatticePoint { ix: (k / (n * n)) as usize, iy: ((k / n) % n) as usize, iz: (k % n) as usize }
}

/// One color channel for coordinate `i`: `i * 255 / n`, rounded down.
pub open spec fn channel_of(n: int, i: int) -> u8 {
    ((i * 255) / n) as u8
}

/// The color of a lattice point: a function of its grid index alone.
pub open spec fn color_of(n: int, p: LatticePoint) -> Color {
    Color { r: channel_of(n, p.ix as int), g: channel_of(n, p.iy as int), b: channel_of(n, p.iz as int), a: 255 }
}

/// The offset of coordinate `i` from the middle of the grid, in units of
/// `1 / (4n)`: `i * pad - size / 2`.
pub open spec fn offset_units(n: int, i: int) -> int {
    2 * i - (n - 1)
}

/// The depth of coordinate `i` beyond the near face, in units of `1 / (4n)`:
/// `i * pad`.
pub open spec fn depth_units(i: int) -> int {
    2 * i
}

/// The lattice points of a grid of side `n`, in flattened order.
pub open spec fn points_spec(n: int) -> Seq<LatticePoint> {
    Seq::new((n * n * n) as nat, |k: int| point_of(n, k))
}

/// The colors of the lattice points of a grid of side `n`, in flattened order.
pub open spec fn colors_spec(n: int) -> Seq<Color> {
    Seq::new((n * n * n) as nat, |k: int| color_of(n, point_of(n, k)))
}

/// The bounds that follow from `fits(n)`.
pub proof fn lemma_fits_bounds(n: int)
    requires
        fits(n),
    ensures
        n * 255 <= usize::MAX,
        n < 0x40_0000,
{
    assert(usize::MAX <= 0xFFFF_FFFF_FFFF_FFFF);
    assert(usize::MAX >= 0xFFFF_FFFF);
    if n >= 256 {
        assert(n * n >= 256 * n) by (nonlinear_arith)
            requires n >= 256;
        assert(n * n * n >= 256 * n) by (nonlinear_arith)
            requires n * n >= 256 * n, n >= 256;
    }
    if n >= 0x40_0000 {
        assert(n * n * n >= 0x40_0000 * 0x40_0000 * 0x40_0000) by (nonlinear_arith)
            requires n >= 0x40_0000;
    }
}

/// The flattened index of a point of the grid lies in `[0, n³)`, and the
/// point is found again from it.
pub proof fn lemma_point_of_flat(n: int, p: LatticePoint)
    requires
        in_grid(n, p),
    ensures
        0 <= flat(n, p) < n * n * n,
        point_of(n, flat(n, p)) == p,
{
    let (a, b, c) = (p.ix as int, p.iy as int, p.iz as int);
    let k = flat(n, p);
    assert(b * n + c < n * n) by (nonlinear_arith)
        requires 0 <= b < n, 0 <= c < n;
    assert(0 <= b * n + c) by (nonlinear_arith)
        requires 0 <= b, 0 <= c, 0 < n;
    assert(a * (n * n) + (n * n) <= n * n * n) by (nonlinear_arith)
        requires 0 <= a < n;
    assert(0 <= a * (n * n)) by (nonlinear_arith)
        requires 0 <= a, 0 < n;
    lemma_fundamental_div_mod_converse(k, n * n, a, b * n + c);
    assert(k == (a * n + b) * n + c) by (nonlinear_arith)
        requires k == a * (n * n) + b * n + c;
    lemma_fundamental_div_mod_converse(k, n, a * n + b, c);
    lemma_fundamental_div_mod_converse(a * n + b, n, a, b);
}

/// Every flattened index in `[0, n³)` names a point of the grid whose
/// flattened index it is.
pub proof fn lemma_flat_point_of(n: int, k: int)
    requires
        fits(n),
        0 <= k < n * n * n,
    ensures
        in_grid(n, point_of(n, k)),
        flat(n, point_of(n, k)) == k,
{
    assert(n > 0) by (nonlinear_arith)
        requires 0 <= k < n * n * n;
    assert(n * n > 0) by (nonlinear_arith)
        requires n > 0;
    lemma_div_denominator(k, n, n);
    lemma_fundamental_div_mod(k, n);
    lemma_fundamental_div_mod(k / n, n);
    let q = k / (n * n);
    assert(q < n) by {
        lemma_div_is_ordered(k, n * n * n - 1, n * n);
        assert(n * n * n - 1 == (n - 1) * (n * n) + (n * n - 1)) by (nonlinear_arith);
        lemma_fundamental_div_mod_converse(n * n * n - 1, n * n, n - 1, n * n - 1);
    }
    assert(q >= 0);
    assert(0 <= (k / n) % n < n);
    assert(0 <= k % n < n);
    assert(k / n >= 0);
    let (a, b, c) = ((k / n) / n, (k / n) % n, k % n);
    assert(k == a * (n * n) + b * n + c) by (nonlinear_arith)
        requires k == n * (k / n) + c, k / n == n * a + b;
    assert(a == q);
    assert(point_of(n, k).ix == a);
}

/// The number of lattice points, `n³`.
pub fn point_count(n: usize) -> (r: usize)
    requires
        fits(n as int),
    ensures
        r == n * n * n,
{
    assert(n * n <= n * n * n) by (nonlinear_arith);
    n * n * n
}

impl LatticePoint {
    /// The flattened index `ix * n² + iy * n + iz` of this point.
    pub fn flat_index(&self, n: usize) -> (r: usize)
        requires
            fits(n as int),
            in_grid(n as int, *self),
        ensures
            r == flat(n as int, *self),
    {
        proof {
            lemma_point_of_flat(n as int, *self);
        }
        assert(self.ix * (n * n) <= flat(n as int, *self)) by (nonlinear_arith)
            requires 0 <= self.iy, 0 <= self.iz, 0 <= n, flat(n as int, *self)
                == self.ix * (n * n) + self.iy * n + self.iz;
        assert(self.iy * n <= flat(n as int, *self)) by (nonlinear_arith)
            requires 0 <= self.ix, 0 <= self.iz, 0 <= n, flat(n as int, *self)
                == self.ix * (n * n) + self.iy * n + self.iz;
        assert(n * n <= n * n * n) by (nonlinear_arith)
            requires self.ix < n;
        self.ix * (n * n) + self.iy * n + self.iz
    }

    /// The grid index whose flattened index is `k`.
    pub fn at(n: usize, k: usize) -> (r: LatticePoint)
        requires
            fits(n as int),
            k < n * n * n,
        ensures
            r == point_of(n as int, k as int),
            in_grid(n as int, r),
            flat(n as int, r) == k,
    {
        proof {
            lemma_flat_point_of(n as int, k as int);
            assert(n * n <= n * n * n && n * n > 0) by (nonlinear_arith)
                requires k < n * n * n;
        }
        let nn = n * n;
        LatticePoint { ix: k / nn, iy: (k / n) % n, iz: k % n }
    }

    /// The color of this point: each channel is its coordinate times 255,
    /// divided by `n` and rounded down; alpha is opaque.
    pub fn color(&self, n: usize) -> (r: Color)
        requires
            fits(n as int),
            in_grid(n as int, *self),
        ensures
            r == color_of(n as int, *self),
    {
        Color { r: channel(n, self.ix), g: channel(n, self.iy), b: channel(n, self.iz), a: 255 }
    }
}

/// `i * 255 / n`, rounded down.
pub fn channel(n: usize, i: usize) -> (r: u8)
    requires
        fits(n as int),
        i < n,
    ensures
        r == channel_of(n as int, i as int),
        r as int == (i * 255) / (n as int),
{
    proof {
        lemma_fits_bounds(n as int);
        lemma_div_is_ordered(i * 255, n * 255, n as int);
        lemma_div_by_multiple(255, n as int);
        assert(n * 255 == 255 * n);
    }
    ((i * 255) / n) as u8
}

/// The lattice points of a grid of side `n`: the `n³` grid indices with `iz`
/// varying fastest, then `iy`, then `ix`.
pub fn generate_points(n: usize) -> (r: Vec<LatticePoint>)
    requires
        fits(n as int),
    ensures
        r@ == points_spec(n as int),
{
    let total = point_count(n);
    let mut r: Vec<LatticePoint> = Vec::with_capacity(total);
    let mut k: usize = 0;
    while k < total
        invariant
            fits(n as int),
            total == n * n * n,
            k <= total,
            r@ == points_spec(n as int).take(k as int),
        decreases total - k,
    {
        r.push(LatticePoint::at(n, k));
        k += 1;
        assert(r@ =~= points_spec(n as int).take(k as int));
    }
    assert(r@ =~= points_spec(n as int));
    r
}

/// The colors of the lattice points of a grid of side `n`, in the order of
/// `generate_points`.
pub fn generate_colors(n: usize) -> (r: Vec<Color>)
    requires
        fits(n as int),
    ensures
        r@ == colors_spec(n as int),
{
    let total = point_count(n);
    let mut r: Vec<Color> = Vec::with_capacity(total);
    let mut k: usize = 0;
    while k < total
        invariant
            fits(n as int),
            total == n * n * n,
            k <= total,
            r@ == colors_spec(n as int).take(k as int),
        decreases total - k,
    {
        let p = LatticePoint::at(n, k);
        r.push(p.color(n));
        k += 1;
        assert(r@ =~= colors_spec(n as int).take(k as int));
    }
    assert(r@ =~= colors_spec(n as int));
    r
}

/// The lattice points of a grid of side `n` and their colors, index-aligned.
pub fn generate(n: usize) -> (r: (Vec<LatticePoint>, Vec<Color>))
    requires
        fits(n as int),
    ensures
        r.0@ == points_spec(n as int),
        r.1@ == colors_spec(n as int),
{
    (generate_points(n), generate_colors(n))
}

/// A grid of side `n` has `n³` points and `n³` colors. The slot `k` of both
/// lists belongs to the point whose flattened index is `k`, every point of the
/// grid has exactly that slot, and the color in a slot is the color of the
/// point in the same slot.
pub proof fn lemma_points_colors_aligned(n: int)
    requires
        fits(n),
    ensures
        points_spec(n).len() == n * n * n,
        colors_spec(n).len() == n * n * n,
        forall|k: int|
            0 <= k < n * n * n ==> #[trigger] in_grid(n, points_spec(n)[k])
                && flat(n, points_spec(n)[k]) == k
                && colors_spec(n)[k] == color_of(n, points_spec(n)[k]),
        forall|p: LatticePoint|
            #[trigger] in_grid(n, p) ==> 0 <= flat(n, p) < n * n * n
                && points_spec(n)[flat(n, p)] == p,
{
    assert(n * n * n >= 0) by (nonlinear_arith)
        requires n >= 0;
    assert forall|k: int|
        0 <= k < n * n * n implies #[trigger] in_grid(n, points_spec(n)[k])
            && flat(n, points_spec(n)[k]) == k
            && colors_spec(n)[k] == color_of(n, points_spec(n)[k]) by {
        lemma_flat_point_of(n, k);
    }
    assert forall|p: LatticePoint| #[trigger] in_grid(n, p) implies 0 <= flat(n, p) < n * n * n
        && points_spec(n)[flat(n, p)] == p by {
        lemma_point_of_flat(n, p);
    }
}

/// The color in the slot of grid index `p` depends on `n` and `p` alone: each
/// channel is the coordinate times 255, divided by `n` and rounded down, which
/// always fits a byte, and alpha is opaque.
pub proof fn lemma_color_purity(n: int, p: LatticePoint)
    requires
        fits(n),
        in_grid(n, p),
    ensures
        colors_spec(n)[flat(n, p)] == color_of(n, p),
        colors_spec(n)[flat(n, p)].r as int == (p.ix * 255) / n,
        colors_spec(n)[flat(n, p)].g as int == (p.iy * 255) / n,
        colors_spec(n)[flat(n, p)].b as int == (p.iz * 255) / n,
        colors_spec(n)[flat(n, p)].a == 255,
{
    lemma_point_of_flat(n, p);
    lemma_channel_in_byte(n, p.ix as int);
    lemma_channel_in_byte(n, p.iy as int);
    lemma_channel_in_byte(n, p.iz as int);
}

/// `i * 255 / n` lies in `[0, 255]` for every `i` in `[0, n)`.
proof fn lemma_channel_in_byte(n: int, i: int)
    requires
        0 <= i < n,
    ensures
        0 <= (i * 255) / n <= 255,
        channel_of(n, i) as int == (i * 255) / n,
{
    lemma_div_is_ordered(i * 255, n * 255, n);
    lemma_div_by_multiple(255, n);
    assert(n * 255 == 255 * n);
    lemma_div_is_ordered(0, i * 255, n);
}

/// The denominator `4n` of the position units: one unit is `1 / (4n)`.
pub fn unit_denominator(n: usize) -> (r: u64)
    requires
        fits(n as int),
    ensures
        r == 4 * n,
{
    proof {
        lemma_fits_bounds(n as int);
    }
    4 * (n as u64)
}

/// How far the rotation center lies beyond the near face of the grid, in
/// units of `1 / (4n)`: `size / 2`.
pub fn center_depth_units(n: usize) -> (r: u64)
    requires
        fits(n as int),
        n > 0,
    ensures
        r == n - 1,
{
    (n - 1) as u64
}

impl LatticePoint {
    /// The model-space position relative to the grid's middle, in units of
    /// `1 / (4n)`: `x` and `y` as they are, and `z` beyond the near face
    /// (the position's `z` is `z_start` plus it).
    pub fn local_units(&self, n: usize) -> (r: (i64, i64, i64))
        requires
            fits(n as int),
            in_grid(n as int, *self),
        ensures
            r.0 == offset_units(n as int, self.ix as int),
            r.1 == offset_units(n as int, self.iy as int),
            r.2 == depth_units(self.iz as int),
    {
        proof {
            lemma_fits_bounds(n as int);
        }
        (axis_offset(n, self.ix), axis_offset(n, self.iy), 2 * (self.iz as i64))
    }

    /// The position relative to the rotation center `(0, 0, z_start + size / 2)`,
    /// in units of `1 / (4n)`. It does not depend on `z_start`.
    pub fn centered_units(&self, n: usize) -> (r: (i64, i64, i64))
        requires
            fits(n as int),
            in_grid(n as int, *self),
        ensures
            r.0 == offset_units(n as int, self.ix as int),
            r.1 == offset_units(n as int, self.iy as int),
            r.2 == offset_units(n as int, self.iz as int),
            r.2 == depth_units(self.iz as int) - (n - 1),
    {
        (axis_offset(n, self.ix), axis_offset(n, self.iy), axis_offset(n, self.iz))
    }
}

/// `2i - (n - 1)`: the offset of coordinate `i` from the grid's middle.
fn axis_offset(n: usize, i: usize) -> (r: i64)
    requires
        fits(n as int),
        i < n,
    ensures
        r == offset_units(n as int, i as int),
{
    proof {
        lemma_fits_bounds(n as int);
    }
    2 * (i as i64) - (n as i64 - 1)
}

} // verus!
