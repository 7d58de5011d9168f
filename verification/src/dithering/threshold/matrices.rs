use vstd::prelude::*;

use crate::utils::num::UNIT;

verus! {

/// The 2x2 base pattern of the ordered threshold matrix.
pub open spec fn l_index(qx: int, qy: int) -> int {
    if qy == 0 {
        if qx == 0 {
            0
        } else {
            2
        }
    } else {
        if qx == 0 {
            3
        } else {
            1
        }
    }
}

/// The rank of position `(x, y)` in an ordered threshold matrix of the given
/// side: the matrix of side `2h` nests the matrix of side `h` in each
/// quadrant, scaled by four and offset by the base pattern.
pub open spec fn bayer_value(x: int, y: int, side: int) -> int
    decreases side,
{
    if side <= 1 {
        0
    } else {
        let h = side / 2;
        4 * bayer_value(x % h, y % h, h) + l_index(x / h, y / h)
    }
}

/// Every rank is below the number of matrix cells.
pub proof fn lemma_bayer_value_bound(x: int, y: int, side: int)
    requires
        side >= 1,
    ensures
        0 <= bayer_value(x, y, side) < side * side,
    decreases side,
{
    if side <= 1 {
    } else {
        let h = side / 2;
        lemma_bayer_value_bound(x % h, y % h, h);
        assert(4 * bayer_value(x % h, y % h, h) + l_index(x / h, y / h) < side * side)
            by (nonlinear_arith)
            requires
                side >= 2,
                h == side / 2,
                0 <= bayer_value(x % h, y % h, h) < h * h,
                0 <= l_index(x / h, y / h) <= 3,
        ;
    }
}

/// The fixed-point entry at `(x, y)` of the order-`order` threshold matrix:
/// the rank as a fraction of the cell count, scaled by `UNIT`.
pub open spec fn bayer_entry(x: int, y: int, order: nat) -> int {
    let side = (1usize << order) as int;
    bayer_value(x, y, side) * ((UNIT as int) / (side * side))
}

/// The ordered (Bayer) threshold matrix of the given order, row-major, with
/// fixed-point entries in `[0, UNIT)`.
pub fn bayer_matrix(order: usize) -> (m: Vec<u32>)
    requires
        order <= 8,
    ensures
        m@.len() == (1usize << order) * (1usize << order),
        forall|y: int, x: int|
            0 <= y < (1usize << order) && 0 <= x < (1usize << order) ==> #[trigger] m@[y * (
            1usize << order) + x] == bayer_entry(x, y, order as nat),
        forall|i: int| 0 <= i < m@.len() ==> #[trigger] m@[i] < UNIT,
{
    let mut cur: Vec<u32> = Vec::new();
    cur.push(0);
    let mut side: usize = 1;
    let mut k: usize = 0;
    proof {
        assert(1usize << 0usize == 1usize) by (bit_vector);
    }
    while k < order
        invariant
            k <= order,
            order <= 8,
            1 <= side,
            side == 1usize << k,
            cur@.len() == side * side,
            forall|y: int, x: int|
                0 <= y < side && 0 <= x < side ==> #[trigger] cur@[y * side + x] == bayer_value(
                    x,
                    y,
                    side as int,
                ),
        decreases order - k,
    {
        proof {
            assert(side <= 128 && 2 * (1usize << k) == (1usize << ((k + 1) as usize)))
                by (bit_vector)
                requires
                    side == 1usize << k,
                    k < 8,
            ;
        }
        let s2 = side * 2;
        let mut next: Vec<u32> = Vec::new();
        let mut y: usize = 0;
        while y < s2
            invariant
                y <= s2,
                s2 == 2 * side,
                side >= 1,
                side <= 128,
                cur@.len() == side * side,
                forall|yy: int, xx: int|
                    0 <= yy < side && 0 <= xx < side ==> #[trigger] cur@[yy * side + xx]
                        == bayer_value(xx, yy, side as int),
                next@.len() == y * s2,
                forall|yy: int, xx: int|
                    0 <= yy < y && 0 <= xx < s2 ==> #[trigger] next@[yy * s2 + xx] == bayer_value(
                        xx,
                        yy,
                        s2 as int,
                    ),
            decreases s2 - y,
        {
            proof {
                assert((y + 1) * s2 == y * s2 + s2) by (nonlinear_arith);
                assert((y + 1) * s2 <= s2 * s2) by (nonlinear_arith)
                    requires
                        0 <= y,
                        y + 1 <= s2,
                ;
            }
            let mut x: usize = 0;
            while x < s2
                invariant
                    x <= s2,
                    y < s2,
                    s2 == 2 * side,
                    side >= 1,
                    side <= 128,
                    cur@.len() == side * side,
                    forall|yy: int, xx: int|
                        0 <= yy < side && 0 <= xx < side ==> #[trigger] cur@[yy * side + xx]
                            == bayer_value(xx, yy, side as int),
                    next@.len() == y * s2 + x,
                    y * s2 + s2 <= s2 * s2,
                    forall|yy: int, xx: int|
                        0 <= yy < y && 0 <= xx < s2 ==> #[trigger] next@[yy * s2 + xx]
                            == bayer_value(xx, yy, s2 as int),
                    forall|xx: int|
                        0 <= xx < x ==> #[trigger] next@[y * s2 + xx] == bayer_value(
                            xx,
                            y as int,
                            s2 as int,
                        ),
                decreases s2 - x,
            {
                let ry = y % side;
                let rx = x % side;
                let qy = y / side;
                let qx = x / side;
                proof {
                    assert(ry < side && rx < side);
                    assert(ry * side + rx < side * side) by (nonlinear_arith)
                        requires
                            0 <= ry < side,
                            0 <= rx < side,
                    ;
                    lemma_bayer_value_bound(rx as int, ry as int, side as int);
                    assert(side * side <= 16384) by (nonlinear_arith)
                        requires
                            1 <= side <= 128,
                    ;
                }
                let base = cur[ry * side + rx];
                let l: u32 = if qy == 0 {
                    if qx == 0 {
                        0
                    } else {
                        2
                    }
                } else {
                    if qx == 0 {
                        3
                    } else {
                        1
                    }
                };
                proof {
                    // The doubled matrix nests the current one per quadrant.
                    assert(qy <= 1 && qx <= 1) by (nonlinear_arith)
                        requires
                            0 <= y < 2 * side,
                            0 <= x < 2 * side,
                            side >= 1,
                            qy == y as int / side as int,
                            qx == x as int / side as int,
                    ;
                    assert(l == l_index(qx as int, qy as int));
                    assert((s2 as int) / 2 == side as int);
                    assert(bayer_value(x as int, y as int, s2 as int) == 4 * bayer_value(
                        rx as int,
                        ry as int,
                        side as int,
                    ) + l_index(qx as int, qy as int));
                }
                next.push(4 * base + l);
                proof {
                    assert forall|yy: int, xx: int|
                        0 <= yy < y && 0 <= xx < s2 implies #[trigger] (yy * s2 + xx) < y * s2 by {
                        assert(yy * s2 + xx < y * s2) by (nonlinear_arith)
                            requires
                                0 <= yy < y,
                                0 <= xx < s2,
                        ;
                    }
                }
                x = x + 1;
            }
            y = y + 1;
        }
        cur = next;
        side = s2;
        k = k + 1;
    }
    // Scale each rank to a fixed-point fraction of UNIT.
    proof {
        vstd::bits::lemma_usize_pow2_no_overflow(k as nat);
        vstd::bits::lemma_usize_shl_is_mul(1usize, k);
        assert(side == vstd::arithmetic::power2::pow2(k as nat));
        vstd::arithmetic::power2::lemma_pow2_adds(k as nat, k as nat);
        assert(side * side == vstd::arithmetic::power2::pow2((2 * k) as nat));
        vstd::arithmetic::power2::lemma2_to64();
        vstd::arithmetic::power2::lemma_pow2_subtracts((2 * k) as nat, 16);
        assert(65536int / ((side * side) as int) == vstd::arithmetic::power2::pow2(
            (16 - 2 * k) as nat,
        ));
        vstd::arithmetic::power2::lemma_pow2_adds((2 * k) as nat, (16 - 2 * k) as nat);
        if 2 * k < 16 {
            vstd::arithmetic::power2::lemma_pow2_strictly_increases((2 * k) as nat, 16);
        }
    }
    let denom = side * side;
    let step: u32 = (65536 / denom) as u32;
    proof {
        assert(denom * step == 65536);
        assert(step >= 1);
        assert forall|j: int| 0 <= j < cur@.len() implies 0 <= #[trigger] cur@[j] < denom by {
            let yy = j / (side as int);
            let xx = j % (side as int);
            vstd::arithmetic::div_mod::lemma_fundamental_div_mod(j, side as int);
            vstd::arithmetic::div_mod::lemma_mod_bound(j, side as int);
            assert(0 <= yy < side) by (nonlinear_arith)
                requires
                    0 <= j < side * side,
                    side >= 1,
                    j == (side as int) * yy + xx,
                    0 <= xx < side,
            ;
            assert(cur@[yy * (side as int) + xx] == bayer_value(xx, yy, side as int));
            lemma_bayer_value_bound(xx, yy, side as int);
        }
    }
    let n = cur.len();
    let mut out: Vec<u32> = Vec::new();
    let mut i: usize = 0;
    while i < n
        invariant
            i <= n,
            n == cur@.len(),
            n == side * side,
            denom == side * side,
            denom >= 1,
            step == 65536int / (denom as int),
            denom * step == 65536,
            step >= 1,
            forall|j: int| 0 <= j < n ==> 0 <= #[trigger] cur@[j] < denom,
            out@.len() == i,
            forall|j: int| 0 <= j < i ==> #[trigger] out@[j] == cur@[j] * step,
            forall|j: int| 0 <= j < i ==> #[trigger] out@[j] < UNIT,
        decreases n - i,
    {
        proof {
            assert(cur@[i as int] * step < denom * step) by (nonlinear_arith)
                requires
                    0 <= cur@[i as int] < denom,
                    step >= 1,
                    denom >= 1,
            ;
        }
        out.push(cur[i] * step);
        i = i + 1;
    }
    proof {
        assert forall|y: int, x: int|
            0 <= y < (1usize << order) && 0 <= x < (1usize << order) implies #[trigger] out@[y * (
        1usize << order) + x] == bayer_entry(x, y, order as nat) by {
            assert(y * side + x < side * side) by (nonlinear_arith)
                requires
                    0 <= y < side,
                    0 <= x < side,
            ;
            assert(out@[y * side + x] == cur@[y * side + x] * step);
        }
    }
    out
}

} // verus!
