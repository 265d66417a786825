//! The gravity system: every unordered pair of distinct bodies attracts
//! with inverse-square strength, and equal and opposite velocity deltas
//! are accumulated over the pair scan.

use vstd::prelude::*;

use crate::body::{
    body_in_start_range, bodies_in_start_range, bodies_in_step_range, dist_sq, models, Body,
    BodyModel, MASS_LIMIT, MIN_SEP, N_LIMIT, PAIR_DELTA_LIMIT, POS_LIMIT, SCALE,
};
use crate::math::{
    abs_int, abs_u128, div_trunc, isqrt, lemma_div_le, lemma_sqrt_floor_bounds, sqrt_floor,
};

verus! {

/// The ranges the pairwise force computation needs of one body:
/// position inside the frame-start window and a positive bounded mass.
pub open spec fn body_in_grav_range(b: BodyModel) -> bool {
    &&& -POS_LIMIT <= b.x <= POS_LIMIT
    &&& -POS_LIMIT <= b.y <= POS_LIMIT
    &&& 0 < b.mass <= MASS_LIMIT
}

pub open spec fn scale_cubed() -> int {
    (SCALE as int) * (SCALE as int) * (SCALE as int)
}

/// Cube of the separation used for a pair at squared distance `dsq`:
/// the floor square root of `dsq`, raised to `MIN_SEP` when the pair is
/// closer than one length unit.
pub open spec fn grav_denom(dsq: int) -> int
    recommends
        dsq >= 0,
{
    let s = sqrt_floor(dsq as nat) as int;
    let d = if s < MIN_SEP {
        MIN_SEP as int
    } else {
        s
    };
    d * d * d
}

/// One axis of the velocity delta a pair exchanges: the direction
/// component times both masses, divided by the cubed separation, which
/// folds the inverse-square force and the direction normalization into
/// one truncating division. A coincident pair has `diff == 0` on both
/// axes and therefore exchanges nothing.
pub open spec fn grav_delta_axis(diff: int, dsq: int, m1: int, m2: int) -> int {
    div_trunc(diff * m1 * m2 * scale_cubed(), grav_denom(dsq))
}

pub open spec fn grav_delta_x(a: BodyModel, b: BodyModel) -> int {
    grav_delta_axis(b.x - a.x, dist_sq(a, b), a.mass, b.mass)
}

pub open spec fn grav_delta_y(a: BodyModel, b: BodyModel) -> int {
    grav_delta_axis(b.y - a.y, dist_sq(a, b), a.mass, b.mass)
}

/// One pair interaction: body `i` gains the delta, body `j` loses it.
pub open spec fn apply_gravity_pair(s: Seq<BodyModel>, i: int, j: int) -> Seq<BodyModel>
    recommends
        0 <= i < j < s.len(),
{
    let dx = grav_delta_x(s[i], s[j]);
    let dy = grav_delta_y(s[i], s[j]);
    let bi = s[i];
    let bj = s[j];
    s.update(i, BodyModel { vx: bi.vx + dx, vy: bi.vy + dy, ..bi }).update(
        j,
        BodyModel { vx: bj.vx - dx, vy: bj.vy - dy, ..bj },
    )
}

/// Pairs `(i, i+1) .. (i, j-1)` applied in ascending order of the
/// second index.
pub open spec fn gravity_inner(s: Seq<BodyModel>, i: int, j: int) -> Seq<BodyModel>
    decreases j,
{
    if i < 0 || j <= i + 1 || j > s.len() {
        s
    } else {
        apply_gravity_pair(gravity_inner(s, i, j - 1), i, j - 1)
    }
}

/// All pairs with first index below `i`, visited as the pair scan
/// visits them: first index ascending, second index ascending.
pub open spec fn gravity_outer(s: Seq<BodyModel>, i: int) -> Seq<BodyModel>
    decreases i,
{
    if i <= 0 || i > s.len() {
        s
    } else {
        gravity_inner(gravity_outer(s, i - 1), i - 1, s.len() as int)
    }
}

/// What one run of the gravity system leaves behind.
pub open spec fn gravity_all(s: Seq<BodyModel>) -> Seq<BodyModel> {
    gravity_outer(s, s.len() as int)
}

/// Velocity delta that the gravity of `b2` adds to `b1` in one frame
/// (`b2` receives the same delta with the opposite sign).
pub fn calculate_new_velocity(b1: &Body, b2: &Body) -> (delta: (i64, i64))
    requires
        body_in_grav_range(b1@),
        body_in_grav_range(b2@),
    ensures
        delta.0 == grav_delta_x(b1@, b2@),
        delta.1 == grav_delta_y(b1@, b2@),
        -PAIR_DELTA_LIMIT <= delta.0 <= PAIR_DELTA_LIMIT,
        -PAIR_DELTA_LIMIT <= delta.1 <= PAIR_DELTA_LIMIT,
{
    let dx: i64 = b2.x - b1.x;
    let dy: i64 = b2.y - b1.y;
    let dxw: i128 = dx as i128;
    let dyw: i128 = dy as i128;
    proof {
        assert(dxw * dxw + dyw * dyw <= 0x8_0000_0000_0000_0000_0000 && dxw * dxw >= 0
            && dyw * dyw >= 0) by (nonlinear_arith)
            requires
                -0x200_0000_0000 <= dxw <= 0x200_0000_0000,
                -0x200_0000_0000 <= dyw <= 0x200_0000_0000,
        ;
    }
    let dsq: u128 = (dxw * dxw + dyw * dyw) as u128;
    let s0: u128 = isqrt(dsq);
    proof {
        assert(s0 <= 0x400_0000_0000) by (nonlinear_arith)
            requires
                s0 * s0 <= 0x8_0000_0000_0000_0000_0000,
                s0 >= 0,
        ;
    }
    let d: u128 = if s0 < 1000 {
        1000
    } else {
        s0
    };
    proof {
        assert(d * d <= 0x10_0000_0000_0000_0000_0000
            && d * (d * d) <= 0x4000_0000_0000_0000_0000_0000_0000_0000
            && d * d >= 1000000) by (nonlinear_arith)
            requires
                1000 <= d <= 0x400_0000_0000,
        ;
        assert((b1.mass as u128) * (b2.mass as u128) <= 1048576
            && (b1.mass as u128) * (b2.mass as u128) >= 1) by (nonlinear_arith)
            requires
                1 <= b1.mass <= 1024,
                1 <= b2.mass <= 1024,
        ;
    }
    let den: u128 = d * (d * d);
    let mm: u128 = (b1.mass as u128) * (b2.mass as u128);
    let sc: u128 = 1_000_000_000;
    let ax: u128 = abs_u128(dx);
    let ay: u128 = abs_u128(dy);
    proof {
        assert(ax <= s0 && ay <= s0) by (nonlinear_arith)
            requires
                ax == dxw || ax == -dxw,
                ay == dyw || ay == -dyw,
                ax >= 0,
                ay >= 0,
                dxw * dxw >= 0,
                dyw * dyw >= 0,
                dxw * dxw + dyw * dyw < (s0 + 1) * (s0 + 1),
                s0 >= 0,
        ;
    }
    let qx: u128 = compute_quotient(ax, mm, sc, d, den, s0);
    let qy: u128 = compute_quotient(ay, mm, sc, d, den, s0);
    proof {
        lemma_axis_delta(dx as int, dsq as int, b1.mass as int, b2.mass as int, d as int, qx as int);
        lemma_axis_delta(dy as int, dsq as int, b1.mass as int, b2.mass as int, d as int, qy as int);
    }
    let rx: i64 = if dx < 0 {
        -(qx as i64)
    } else {
        qx as i64
    };
    let ry: i64 = if dy < 0 {
        -(qy as i64)
    } else {
        qy as i64
    };
    (rx, ry)
}

/// The unsigned quotient of one axis: `a * mm * sc / den`, bounded by
/// `PAIR_DELTA_LIMIT` because `a <= d` and `sc <= 1000 * d * d`.
fn compute_quotient(a: u128, mm: u128, sc: u128, d: u128, den: u128, s0: u128) -> (q: u128)
    requires
        a <= s0,
        s0 <= d,
        1000 <= d <= 0x400_0000_0000,
        1 <= mm <= 1048576,
        sc == 1_000_000_000,
        den == d * (d * d),
    ensures
        q == (a * mm * sc) as int / den as int,
        q <= mm * 1000,
        q <= PAIR_DELTA_LIMIT,
{
    proof {
        assert(a * mm * sc <= den * (mm * 1000) && a * mm * sc <= u128::MAX && den >= 1)
            by (nonlinear_arith)
            requires
                0 <= a <= d,
                1000 <= d <= 0x400_0000_0000,
                1 <= mm <= 1048576,
                sc == 1_000_000_000,
                den == d * (d * d),
        ;
        lemma_div_le((a * mm * sc) as int, den as int, (mm * 1000) as int);
    }
    a * mm * sc / den
}

/// All bodies have in-range positions and masses (what the pairwise
/// force computation reads; velocities do not matter to it).
pub open spec fn bodies_in_grav_range(s: Seq<BodyModel>) -> bool {
    forall|k: int| 0 <= k < s.len() ==> body_in_grav_range(#[trigger] s[k])
}

/// One axis of a pair delta is bounded by `PAIR_DELTA_LIMIT` because
/// the direction component never exceeds the separation and the
/// separation never falls below `MIN_SEP`.
proof fn lemma_axis_bound(diff: int, dsq: int, m1: int, m2: int)
    requires
        diff * diff <= dsq,
        1 <= m1 <= 1024,
        1 <= m2 <= 1024,
    ensures
        -PAIR_DELTA_LIMIT <= grav_delta_axis(diff, dsq, m1, m2) <= PAIR_DELTA_LIMIT,
{
    lemma_sqrt_floor_bounds(dsq as nat);
    let sq = sqrt_floor(dsq as nat) as int;
    let d: int = if sq < MIN_SEP {
        MIN_SEP as int
    } else {
        sq
    };
    let den = grav_denom(dsq);
    assert(dsq >= 0) by (nonlinear_arith)
        requires
            diff * diff <= dsq,
    ;
    let adiff = abs_int(diff);
    assert(adiff <= sq) by (nonlinear_arith)
        requires
            adiff == diff || adiff == -diff,
            adiff >= 0,
            sq >= 0,
            diff * diff <= dsq,
            dsq < (sq + 1) * (sq + 1),
    ;
    let num = diff * m1 * m2 * scale_cubed();
    let anum = abs_int(num);
    assert(scale_cubed() == 1_000_000_000);
    assert(anum == adiff * m1 * m2 * 1_000_000_000 && (diff >= 0 ==> num == anum) && (diff < 0
        ==> num == -anum)) by (nonlinear_arith)
        requires
            m1 >= 1,
            m2 >= 1,
            num == diff * m1 * m2 * 1_000_000_000,
            anum == abs_int(num),
            adiff == abs_int(diff),
            abs_int(num) == if num >= 0 {
                num
            } else {
                -num
            },
            abs_int(diff) == if diff >= 0 {
                diff
            } else {
                -diff
            },
    ;
    assert(anum <= den * (m1 * m2 * 1000) && den >= 1) by (nonlinear_arith)
        requires
            anum == adiff * m1 * m2 * 1_000_000_000,
            0 <= adiff <= d,
            1000 <= d,
            1 <= m1,
            1 <= m2,
            den == d * d * d,
    ;
    lemma_div_le(anum, den, m1 * m2 * 1000);
    vstd::arithmetic::div_mod::lemma_div_pos_is_pos(anum, den);
    assert(m1 * m2 * 1000 <= PAIR_DELTA_LIMIT) by (nonlinear_arith)
        requires
            1 <= m1 <= 1024,
            1 <= m2 <= 1024,
    ;
    if diff >= 0 {
        assert(grav_delta_axis(diff, dsq, m1, m2) == anum / den);
    } else {
        assert(grav_delta_axis(diff, dsq, m1, m2) == -(anum / den));
    }
}

/// The two deltas a pair exchanges stay within `PAIR_DELTA_LIMIT`.
proof fn lemma_pair_delta_bound(a: BodyModel, b: BodyModel)
    requires
        body_in_grav_range(a),
        body_in_grav_range(b),
    ensures
        -PAIR_DELTA_LIMIT <= grav_delta_x(a, b) <= PAIR_DELTA_LIMIT,
        -PAIR_DELTA_LIMIT <= grav_delta_y(a, b) <= PAIR_DELTA_LIMIT,
{
    assert((b.x - a.x) * (b.x - a.x) <= dist_sq(a, b) && (b.y - a.y) * (b.y - a.y) <= dist_sq(
        a,
        b,
    )) by (nonlinear_arith);
    lemma_axis_bound(b.x - a.x, dist_sq(a, b), a.mass, b.mass);
    lemma_axis_bound(b.y - a.y, dist_sq(a, b), a.mass, b.mass);
}

/// `gravity_inner` keeps length, positions and masses, and moves every
/// velocity component by at most `(j - i - 1) * PAIR_DELTA_LIMIT`.
proof fn lemma_gravity_inner_bounds(s: Seq<BodyModel>, i: int, j: int)
    requires
        bodies_in_grav_range(s),
        0 <= i,
        i + 1 <= j <= s.len(),
    ensures
        gravity_inner(s, i, j).len() == s.len(),
        forall|k: int|
            0 <= k < s.len() ==> {
                let nb = #[trigger] gravity_inner(s, i, j)[k];
                &&& nb.x == s[k].x
                &&& nb.y == s[k].y
                &&& nb.mass == s[k].mass
                &&& nb.vx - s[k].vx <= (j - i - 1) * PAIR_DELTA_LIMIT
                &&& s[k].vx - nb.vx <= (j - i - 1) * PAIR_DELTA_LIMIT
                &&& nb.vy - s[k].vy <= (j - i - 1) * PAIR_DELTA_LIMIT
                &&& s[k].vy - nb.vy <= (j - i - 1) * PAIR_DELTA_LIMIT
            },
    decreases j,
{
    if j == i + 1 {
        assert(gravity_inner(s, i, j) == s);
        assert((j - i - 1) * PAIR_DELTA_LIMIT == 0) by (nonlinear_arith)
            requires
                j == i + 1,
        ;
    } else {
        lemma_gravity_inner_bounds(s, i, j - 1);
        let prev = gravity_inner(s, i, j - 1);
        lemma_pair_delta_bound(prev[i], prev[j - 1]);
        assert(gravity_inner(s, i, j) == apply_gravity_pair(prev, i, j - 1));
        assert((j - 1 - i - 1) * PAIR_DELTA_LIMIT + PAIR_DELTA_LIMIT == (j - i - 1)
            * PAIR_DELTA_LIMIT && (j - 1 - i - 1) * PAIR_DELTA_LIMIT <= (j - i - 1)
            * PAIR_DELTA_LIMIT) by (nonlinear_arith);
    }
}

/// `gravity_outer` keeps length, positions and masses, and moves every
/// velocity component by at most `i * len * PAIR_DELTA_LIMIT`.
proof fn lemma_gravity_outer_bounds(s: Seq<BodyModel>, i: int)
    requires
        bodies_in_grav_range(s),
        0 <= i <= s.len(),
    ensures
        gravity_outer(s, i).len() == s.len(),
        forall|k: int|
            0 <= k < s.len() ==> {
                let nb = #[trigger] gravity_outer(s, i)[k];
                &&& nb.x == s[k].x
                &&& nb.y == s[k].y
                &&& nb.mass == s[k].mass
                &&& nb.vx - s[k].vx <= i * s.len() * PAIR_DELTA_LIMIT
                &&& s[k].vx - nb.vx <= i * s.len() * PAIR_DELTA_LIMIT
                &&& nb.vy - s[k].vy <= i * s.len() * PAIR_DELTA_LIMIT
                &&& s[k].vy - nb.vy <= i * s.len() * PAIR_DELTA_LIMIT
            },
    decreases i,
{
    let n = s.len() as int;
    if i == 0 {
        assert(gravity_outer(s, i) == s);
        assert(0 * n * PAIR_DELTA_LIMIT == 0) by (nonlinear_arith);
    } else {
        lemma_gravity_outer_bounds(s, i - 1);
        let prev = gravity_outer(s, i - 1);
        assert(bodies_in_grav_range(prev));
        if i - 1 + 1 <= n {
            lemma_gravity_inner_bounds(prev, i - 1, n);
        }
        assert(gravity_outer(s, i) == gravity_inner(prev, i - 1, n));
        assert((i - 1) * n * PAIR_DELTA_LIMIT + (n - (i - 1) - 1) * PAIR_DELTA_LIMIT <= i * n
            * PAIR_DELTA_LIMIT) by (nonlinear_arith)
            requires
                1 <= i <= n,
        ;
    }
}

/// Runs the gravity system: a full scan of the unordered pairs of
/// distinct bodies, accumulating equal and opposite velocity deltas.
/// Does nothing when the simulation is paused.
pub fn update_from_gravity(bodies: &mut Vec<Body>, paused: bool)
    requires
        bodies_in_start_range(models(old(bodies)@)),
    ensures
        models(final(bodies)@) == if paused {
            models(old(bodies)@)
        } else {
            gravity_all(models(old(bodies)@))
        },
        final(bodies)@.len() == old(bodies)@.len(),
        forall|k: int|
            0 <= k < old(bodies)@.len() ==> #[trigger] final(bodies)@[k].x == old(bodies)@[k].x
                && final(bodies)@[k].y == old(bodies)@[k].y && final(bodies)@[k].mass == old(
                bodies,
            )@[k].mass,
        bodies_in_step_range(models(final(bodies)@)),
{
    if paused {
        assert(bodies_in_step_range(models(bodies@))) by {
            assert forall|k: int| 0 <= k < models(bodies@).len() implies crate::body::body_in_step_range(
                #[trigger] models(bodies@)[k],
            ) by {
                assert(body_in_start_range(models(bodies@)[k]));
            }
        }
        assert forall|k: int|
            0 <= k < old(bodies)@.len() implies #[trigger] bodies@[k].x == old(bodies)@[k].x
                && bodies@[k].y == old(bodies)@[k].y && bodies@[k].mass == old(
                bodies,
            )@[k].mass by {
        }
        return ;
    }
    let ghost s0 = models(bodies@);
    let n = bodies.len();
    let mut i: usize = 0;
    while i < n
        invariant
            bodies@.len() == n,
            s0.len() == n,
            n <= N_LIMIT,
            bodies_in_start_range(s0),
            i <= n,
            models(bodies@) == gravity_outer(s0, i as int),
        decreases n - i,
    {
        let ghost rs = gravity_outer(s0, i as int);
        let mut j: usize = i + 1;
        proof {
            assert(gravity_inner(rs, i as int, j as int) == rs);
        }
        while j < n
            invariant
                bodies@.len() == n,
                s0.len() == n,
                n <= N_LIMIT,
                bodies_in_start_range(s0),
                i < n,
                i + 1 <= j <= n,
                rs == gravity_outer(s0, i as int),
                models(bodies@) == gravity_inner(rs, i as int, j as int),
            decreases n - j,
        {
            proof {
                assert(bodies_in_grav_range(s0)) by {
                    assert forall|k: int| 0 <= k < s0.len() implies body_in_grav_range(
                        #[trigger] s0[k],
                    ) by {
                        assert(body_in_start_range(s0[k]));
                    }
                }
                lemma_gravity_outer_bounds(s0, i as int);
                assert(bodies_in_grav_range(rs)) by {
                    assert forall|k: int| 0 <= k < rs.len() implies body_in_grav_range(
                        #[trigger] rs[k],
                    ) by {
                        assert(body_in_grav_range(s0[k]));
                    }
                }
                lemma_gravity_inner_bounds(rs, i as int, j as int);
                // The accumulated deltas so far stay within
                // N_LIMIT * N_LIMIT * PAIR_DELTA_LIMIT.
                assert((i as int) * (n as int) * PAIR_DELTA_LIMIT + ((j as int) - (i as int) - 1)
                    * PAIR_DELTA_LIMIT <= 68719476736000) by (nonlinear_arith)
                    requires
                        0 <= i as int,
                        (i as int) < (n as int),
                        i as int + 1 <= j as int,
                        (j as int) <= (n as int),
                        (n as int) <= 256,
                ;
            }
            let bi = bodies[i];
            let bj = bodies[j];
            proof {
                assert(bi@ == models(bodies@)[i as int]);
                assert(bj@ == models(bodies@)[j as int]);
            }
            let (qx, qy) = calculate_new_velocity(&bi, &bj);
            let ghost mpre = models(bodies@);
            bodies[i] = Body { vx: bi.vx + qx, vy: bi.vy + qy, ..bi };
            bodies[j] = Body { vx: bj.vx - qx, vy: bj.vy - qy, ..bj };
            proof {
                assert(models(bodies@) =~= apply_gravity_pair(mpre, i as int, j as int));
                assert(gravity_inner(rs, i as int, j as int + 1) == apply_gravity_pair(
                    gravity_inner(rs, i as int, j as int),
                    i as int,
                    j as int,
                ));
            }
            j += 1;
        }
        proof {
            assert(gravity_outer(s0, i as int + 1) == gravity_inner(
                gravity_outer(s0, i as int),
                i as int,
                s0.len() as int,
            ));
        }
        i += 1;
    }
    proof {
        assert(models(bodies@) == gravity_all(s0));
        assert(bodies_in_grav_range(s0)) by {
            assert forall|k: int| 0 <= k < s0.len() implies body_in_grav_range(#[trigger] s0[k]) by {
                assert(body_in_start_range(s0[k]));
            }
        }
        lemma_gravity_outer_bounds(s0, n as int);
        assert((n as int) * (n as int) * PAIR_DELTA_LIMIT <= 68719476736000) by (nonlinear_arith)
            requires
                0 <= n as int,
                (n as int) <= 256,
        ;
        assert forall|k: int| 0 <= k < models(bodies@).len() implies crate::body::body_in_step_range(
            #[trigger] models(bodies@)[k],
        ) by {
            assert(body_in_start_range(s0[k]));
        }
        assert forall|k: int|
            0 <= k < old(bodies)@.len() implies #[trigger] bodies@[k].x == old(bodies)@[k].x
                && bodies@[k].y == old(bodies)@[k].y && bodies@[k].mass == old(
                bodies,
            )@[k].mass by {
            assert(models(bodies@)[k].x == s0[k].x && models(bodies@)[k].y == s0[k].y && models(
                bodies@,
            )[k].mass == s0[k].mass);
            assert(s0[k] == old(bodies)@[k]@);
        }
    }
}

/// Relates the unsigned sign-magnitude computation back to the signed
/// truncating division the delta is specified with.
proof fn lemma_axis_delta(diff: int, dsq: int, m1: int, m2: int, d: int, q: int)
    requires
        dsq >= 0,
        d == if sqrt_floor(dsq as nat) < MIN_SEP {
            MIN_SEP as int
        } else {
            sqrt_floor(dsq as nat) as int
        },
        m1 >= 1,
        m2 >= 1,
        q == abs_int(diff) * (m1 * m2) * 1_000_000_000 / (d * (d * d)),
    ensures
        if diff < 0 {
            grav_delta_axis(diff, dsq, m1, m2) == -q
        } else {
            grav_delta_axis(diff, dsq, m1, m2) == q
        },
{
    let num = diff * m1 * m2 * scale_cubed();
    let anum = abs_int(diff) * (m1 * m2) * 1_000_000_000;
    assert(scale_cubed() == 1_000_000_000);
    assert(d * (d * d) == d * d * d && d * d * d >= 1) by (nonlinear_arith)
        requires
            d >= 1000,
    ;
    assert(grav_denom(dsq) == d * d * d);
    if diff >= 0 {
        assert(num == anum) by (nonlinear_arith)
            requires
                diff >= 0,
                anum == abs_int(diff) * (m1 * m2) * 1_000_000_000,
                num == diff * m1 * m2 * scale_cubed(),
                scale_cubed() == 1_000_000_000,
                abs_int(diff) == diff,
        ;
        assert(num >= 0) by (nonlinear_arith)
            requires
                diff >= 0,
                m1 >= 1,
                m2 >= 1,
                num == diff * m1 * m2 * scale_cubed(),
                scale_cubed() == 1_000_000_000,
        ;
    } else {
        assert(-num == anum) by (nonlinear_arith)
            requires
                diff < 0,
                anum == abs_int(diff) * (m1 * m2) * 1_000_000_000,
                num == diff * m1 * m2 * scale_cubed(),
                scale_cubed() == 1_000_000_000,
                abs_int(diff) == -diff,
        ;
        assert(num < 0) by (nonlinear_arith)
            requires
                diff < 0,
                m1 >= 1,
                m2 >= 1,
                num == diff * m1 * m2 * scale_cubed(),
                scale_cubed() == 1_000_000_000,
        ;
    }
}

/// Sum of `f` over all bodies of a registry.
pub open spec fn sum_of(s: Seq<BodyModel>, f: spec_fn(BodyModel) -> int) -> int
    decreases s.len(),
{
    if s.len() == 0 {
        0
    } else {
        sum_of(s.drop_last(), f) + f(s.last())
    }
}

/// Total momentum along the x axis: the mass-weighted sum of the
/// x velocity components.
pub open spec fn momentum_x(s: Seq<BodyModel>) -> int {
    sum_of(s, |b: BodyModel| b.mass * b.vx)
}

pub open spec fn momentum_y(s: Seq<BodyModel>) -> int {
    sum_of(s, |b: BodyModel| b.mass * b.vy)
}

/// Plain sum of the x velocity components.
pub open spec fn velocity_sum_x(s: Seq<BodyModel>) -> int {
    sum_of(s, |b: BodyModel| b.vx)
}

pub open spec fn velocity_sum_y(s: Seq<BodyModel>) -> int {
    sum_of(s, |b: BodyModel| b.vy)
}

/// Every body has mass `m`.
pub open spec fn uniform_mass(s: Seq<BodyModel>, m: int) -> bool {
    forall|k: int| 0 <= k < s.len() ==> (#[trigger] s[k]).mass == m
}

/// Replacing one element moves a sum by the difference at that element.
proof fn lemma_sum_update(s: Seq<BodyModel>, f: spec_fn(BodyModel) -> int, k: int, b: BodyModel)
    requires
        0 <= k < s.len(),
    ensures
        sum_of(s.update(k, b), f) == sum_of(s, f) + f(b) - f(s[k]),
    decreases s.len(),
{
    let u = s.update(k, b);
    if k == s.len() - 1 {
        assert(u.drop_last() =~= s.drop_last());
        assert(u.last() == b);
    } else {
        assert(u.drop_last() =~= s.drop_last().update(k, b));
        assert(u.last() == s.last());
        lemma_sum_update(s.drop_last(), f, k, b);
    }
}

/// One pair interaction moves the velocity sums by nothing, and the
/// momentum sums by nothing when the two masses are equal.
proof fn lemma_apply_pair_sums(s: Seq<BodyModel>, i: int, j: int)
    requires
        0 <= i < j < s.len(),
    ensures
        velocity_sum_x(apply_gravity_pair(s, i, j)) == velocity_sum_x(s),
        velocity_sum_y(apply_gravity_pair(s, i, j)) == velocity_sum_y(s),
        s[i].mass == s[j].mass ==> momentum_x(apply_gravity_pair(s, i, j)) == momentum_x(s),
        s[i].mass == s[j].mass ==> momentum_y(apply_gravity_pair(s, i, j)) == momentum_y(s),
{
    let dx = grav_delta_x(s[i], s[j]);
    let dy = grav_delta_y(s[i], s[j]);
    let bi = s[i];
    let bj = s[j];
    let nbi = BodyModel { vx: bi.vx + dx, vy: bi.vy + dy, ..bi };
    let nbj = BodyModel { vx: bj.vx - dx, vy: bj.vy - dy, ..bj };
    let u1 = s.update(i, nbi);
    assert(u1[j] == bj);
    let fx = |b: BodyModel| b.mass * b.vx;
    let fy = |b: BodyModel| b.mass * b.vy;
    let gx = |b: BodyModel| b.vx;
    let gy = |b: BodyModel| b.vy;
    lemma_sum_update(s, fx, i, nbi);
    lemma_sum_update(u1, fx, j, nbj);
    lemma_sum_update(s, fy, i, nbi);
    lemma_sum_update(u1, fy, j, nbj);
    lemma_sum_update(s, gx, i, nbi);
    lemma_sum_update(u1, gx, j, nbj);
    lemma_sum_update(s, gy, i, nbi);
    lemma_sum_update(u1, gy, j, nbj);
    if bi.mass == bj.mass {
        assert(bi.mass * (bi.vx + dx) - bi.mass * bi.vx + (bj.mass * (bj.vx - dx) - bj.mass
            * bj.vx) == 0) by (nonlinear_arith)
            requires
                bi.mass == bj.mass,
        ;
        assert(bi.mass * (bi.vy + dy) - bi.mass * bi.vy + (bj.mass * (bj.vy - dy) - bj.mass
            * bj.vy) == 0) by (nonlinear_arith)
            requires
                bi.mass == bj.mass,
        ;
    }
}

/// `apply_gravity_pair` never touches a mass.
proof fn lemma_apply_pair_mass(s: Seq<BodyModel>, i: int, j: int, m: int)
    requires
        0 <= i < j < s.len(),
        uniform_mass(s, m),
    ensures
        uniform_mass(apply_gravity_pair(s, i, j), m),
        apply_gravity_pair(s, i, j).len() == s.len(),
{
}

proof fn lemma_gravity_inner_sums(s: Seq<BodyModel>, i: int, j: int, m: int)
    requires
        uniform_mass(s, m),
        0 <= i < s.len(),
        i + 1 <= j <= s.len(),
    ensures
        uniform_mass(gravity_inner(s, i, j), m),
        gravity_inner(s, i, j).len() == s.len(),
        velocity_sum_x(gravity_inner(s, i, j)) == velocity_sum_x(s),
        velocity_sum_y(gravity_inner(s, i, j)) == velocity_sum_y(s),
        momentum_x(gravity_inner(s, i, j)) == momentum_x(s),
        momentum_y(gravity_inner(s, i, j)) == momentum_y(s),
    decreases j,
{
    if j <= i + 1 {
    } else {
        lemma_gravity_inner_sums(s, i, j - 1, m);
        let prev = gravity_inner(s, i, j - 1);
        lemma_apply_pair_sums(prev, i, j - 1);
        lemma_apply_pair_mass(prev, i, j - 1, m);
    }
}

proof fn lemma_gravity_outer_sums(s: Seq<BodyModel>, i: int, m: int)
    requires
        uniform_mass(s, m),
        0 <= i <= s.len(),
    ensures
        uniform_mass(gravity_outer(s, i), m),
        gravity_outer(s, i).len() == s.len(),
        velocity_sum_x(gravity_outer(s, i)) == velocity_sum_x(s),
        velocity_sum_y(gravity_outer(s, i)) == velocity_sum_y(s),
        momentum_x(gravity_outer(s, i)) == momentum_x(s),
        momentum_y(gravity_outer(s, i)) == momentum_y(s),
    decreases i,
{
    if i <= 0 {
    } else {
        lemma_gravity_outer_sums(s, i - 1, m);
        let prev = gravity_outer(s, i - 1);
        if i - 1 < prev.len() {
            lemma_gravity_inner_sums(prev, i - 1, s.len() as int, m);
        }
    }
}

/// Law: one run of the gravity system over bodies of equal mass leaves
/// the total momentum (the mass-weighted sum of the velocities)
/// unchanged on both axes, exactly: each pair exchanges equal and
/// opposite velocity deltas, and equal masses weight them equally.
/// With unequal masses the deltas are equal in velocity, not in
/// momentum, so this is stated for a uniform mass.
pub proof fn lemma_gravity_conserves_momentum(s: Seq<BodyModel>, m: int)
    requires
        uniform_mass(s, m),
    ensures
        momentum_x(gravity_all(s)) == momentum_x(s),
        momentum_y(gravity_all(s)) == momentum_y(s),
{
    lemma_gravity_outer_sums(s, s.len() as int, m);
}

/// Law: one run of the gravity system leaves the plain sum of the
/// velocities unchanged on both axes, whatever the masses: the two
/// deltas of every pair cancel exactly.
pub proof fn lemma_gravity_conserves_velocity_sum(s: Seq<BodyModel>)
    ensures
        velocity_sum_x(gravity_all(s)) == velocity_sum_x(s),
        velocity_sum_y(gravity_all(s)) == velocity_sum_y(s),
{
    lemma_gravity_outer_sums_vel(s, s.len() as int);
}

proof fn lemma_gravity_inner_vel(s: Seq<BodyModel>, i: int, j: int)
    requires
        0 <= i < s.len(),
        i + 1 <= j <= s.len(),
    ensures
        gravity_inner(s, i, j).len() == s.len(),
        velocity_sum_x(gravity_inner(s, i, j)) == velocity_sum_x(s),
        velocity_sum_y(gravity_inner(s, i, j)) == velocity_sum_y(s),
    decreases j,
{
    if j <= i + 1 {
    } else {
        lemma_gravity_inner_vel(s, i, j - 1);
        let prev = gravity_inner(s, i, j - 1);
        lemma_apply_pair_sums(prev, i, j - 1);
        assert(apply_gravity_pair(prev, i, j - 1).len() == prev.len());
    }
}

proof fn lemma_gravity_outer_sums_vel(s: Seq<BodyModel>, i: int)
    requires
        0 <= i <= s.len(),
    ensures
        gravity_outer(s, i).len() == s.len(),
        velocity_sum_x(gravity_outer(s, i)) == velocity_sum_x(s),
        velocity_sum_y(gravity_outer(s, i)) == velocity_sum_y(s),
    decreases i,
{
    if i <= 0 {
    } else {
        lemma_gravity_outer_sums_vel(s, i - 1);
        let prev = gravity_outer(s, i - 1);
        if i - 1 < prev.len() {
            lemma_gravity_inner_vel(prev, i - 1, s.len() as int);
        }
    }
}

} // verus!
