//! Raster order over a three-dimensional extent: x runs fastest, then y,
//! then z.

use vstd::arithmetic::div_mod::{
    lemma_div_multiples_vanish_fancy, lemma_fundamental_div_mod, lemma_mod_bound,
    lemma_mod_multiples_vanish, lemma_multiply_divide_lt, lemma_small_mod,
};
use vstd::arithmetic::mul::lemma_mul_upper_bound;
use vstd::prelude::*;

verus! {

/// The number of points of the extent.
pub open spec fn volume(d: (u32, u32, u32)) -> nat {
    (d.0 as nat) * ((d.1 as nat) * (d.2 as nat))
}

/// The point at position `i` of the raster order of `d`.
pub open spec fn raster_at(d: (u32, u32, u32), i: nat) -> (u32, u32, u32) {
    ((i % (d.0 as nat)) as u32, ((i / (d.0 as nat)) % (d.1 as nat)) as u32, ((i / (d.0 as nat)) / (
    d.1 as nat)) as u32)
}

/// The position of the point `p` in the raster order of `d`.
pub open spec fn raster_pos(d: (u32, u32, u32), p: (u32, u32, u32)) -> nat {
    (p.0 as nat) + (d.0 as nat) * ((p.1 as nat) + (d.1 as nat) * (p.2 as nat))
}

/// The points at positions `lo` up to, not including, `hi`.
pub open spec fn raster_range(d: (u32, u32, u32), lo: nat, hi: nat) -> Seq<(u32, u32, u32)> {
    Seq::new((hi - lo) as nat, |k: int| raster_at(d, (lo + k) as nat))
}

/// No extent has more than 2^96 points.
pub proof fn lemma_volume_bound(d: (u32, u32, u32))
    ensures
        (d.1 as nat) * (d.2 as nat) <= 0xffff_ffff * 0xffff_ffff,
        volume(d) <= 0xffff_ffff * 0xffff_ffff * 0xffff_ffff,
{
    lemma_mul_upper_bound(d.1 as int, 0xffff_ffff, d.2 as int, 0xffff_ffff);
    lemma_mul_upper_bound(
        d.0 as int,
        0xffff_ffff,
        d.1 as int * d.2 as int,
        0xffff_ffff * 0xffff_ffffint,
    );
}

/// Every position below the volume holds a point inside the extent, and the
/// point leads back to its position: x counts fastest, z slowest.
pub proof fn lemma_raster_at_in_grid(d: (u32, u32, u32), i: nat)
    requires
        i < volume(d),
    ensures
        raster_at(d, i).0 < d.0,
        raster_at(d, i).1 < d.1,
        raster_at(d, i).2 < d.2,
        raster_at(d, i).0 == i % (d.0 as nat),
        raster_at(d, i).1 == (i / (d.0 as nat)) % (d.1 as nat),
        raster_at(d, i).2 == (i / (d.0 as nat)) / (d.1 as nat),
        raster_pos(d, raster_at(d, i)) == i,
{
    let dx = d.0 as int;
    let dy = d.1 as int;
    let dz = d.2 as int;
    assert(dx > 0 && dy > 0 && dz > 0) by (nonlinear_arith)
        requires
            0 <= dx,
            0 <= dy,
            0 <= dz,
            0 <= i < dx * (dy * dz),
    ;
    let q = i as int / dx;
    lemma_mod_bound(i as int, dx);
    lemma_fundamental_div_mod(i as int, dx);
    lemma_multiply_divide_lt(i as int, dx, dy * dz);
    assert(0 <= q) by (nonlinear_arith)
        requires
            q == i as int / dx,
            dx > 0,
            i >= 0,
    ;
    lemma_mod_bound(q, dy);
    lemma_fundamental_div_mod(q, dy);
    lemma_multiply_divide_lt(q, dy, dz);
    assert(0 <= q / dy) by (nonlinear_arith)
        requires
            0 <= q,
            dy > 0,
    ;
    let x = i as int % dx;
    let y = q % dy;
    let z = q / dy;
    assert(x + dx * (y + dy * z) == i) by {
        assert(q == dy * z + y);
        assert(i == dx * q + x);
    }
}

/// Every point inside the extent sits at its position of the raster order.
pub proof fn lemma_raster_pos_in_order(d: (u32, u32, u32), p: (u32, u32, u32))
    requires
        p.0 < d.0,
        p.1 < d.1,
        p.2 < d.2,
    ensures
        raster_pos(d, p) < volume(d),
        raster_at(d, raster_pos(d, p)) == p,
{
    let dx = d.0 as int;
    let dy = d.1 as int;
    let dz = d.2 as int;
    let x = p.0 as int;
    let y = p.1 as int;
    let z = p.2 as int;
    let q = y + dy * z;
    assert(dy * z + dy <= dy * dz) by (nonlinear_arith)
        requires
            0 <= z < dz,
            0 < dy,
    ;
    assert(dx * q + dx <= dx * (dy * dz)) by (nonlinear_arith)
        requires
            0 <= q,
            q + 1 <= dy * dz,
            0 < dx,
    ;
    assert(0 <= dy * z) by (nonlinear_arith)
        requires
            0 <= z,
            0 < dy,
    ;
    assert(0 <= dx * q) by (nonlinear_arith)
        requires
            0 <= q,
            0 < dx,
    ;
    let i = x + dx * q;
    lemma_div_multiples_vanish_fancy(q, x, dx);
    lemma_mod_multiples_vanish(q, x, dx);
    lemma_small_mod(x as nat, dx as nat);
    assert(i / dx == q);
    assert(i % dx == x);
    lemma_div_multiples_vanish_fancy(z, y, dy);
    lemma_mod_multiples_vanish(z, y, dy);
    lemma_small_mod(y as nat, dy as nat);
    assert(q / dy == z);
    assert(q % dy == y);
}

/// Consecutive ranges of the raster order join into one range.
pub proof fn lemma_raster_range_concat(d: (u32, u32, u32), a: nat, b: nat, c: nat)
    requires
        a <= b <= c,
    ensures
        raster_range(d, a, b) + raster_range(d, b, c) == raster_range(d, a, c),
{
    assert(raster_range(d, a, b) + raster_range(d, b, c) =~= raster_range(d, a, c));
}

/// The number of points of `d`.
pub fn volume_of(d: (u32, u32, u32)) -> (n: u128)
    ensures
        n == volume(d),
{
    proof {
        lemma_volume_bound(d);
    }
    let yz: u128 = (d.1 as u128) * (d.2 as u128);
    (d.0 as u128) * yz
}

/// The point at position `i` of the raster order of `d`.
pub fn raster_point(d: (u32, u32, u32), i: u128) -> (p: (u32, u32, u32))
    requires
        i < volume(d),
    ensures
        p == raster_at(d, i as nat),
{
    proof {
        lemma_raster_at_in_grid(d, i as nat);
    }
    let dx: u128 = d.0 as u128;
    let dy: u128 = d.1 as u128;
    let q: u128 = i / dx;
    ((i % dx) as u32, (q % dy) as u32, (q / dy) as u32)
}

} // verus!
