//! The integrator: every position advances by its velocity times the
//! frame's elapsed time, the same elapsed value for all bodies. It reads
//! the velocities the gravity and collision systems left this frame.

use vstd::prelude::*;

use crate::body::{bodies_in_step_range, body_in_step_range, models, Body, BodyModel, POS_LIMIT,
    SCALE, TIME_LIMIT, VEL_STEP_LIMIT};
use crate::math::{abs_u128, div_trunc, lemma_div_le};

verus! {

/// One Euler step of one body: `position += velocity * elapsed`,
/// component by component, in truncating fixed point. Velocity and
/// mass are untouched.
pub open spec fn integrate_body(b: BodyModel, elapsed: int) -> BodyModel {
    BodyModel {
        x: b.x + div_trunc(b.vx * elapsed, SCALE as int),
        y: b.y + div_trunc(b.vy * elapsed, SCALE as int),
        ..b
    }
}

/// What one run of the integrator leaves behind.
pub open spec fn integrate_all(s: Seq<BodyModel>, elapsed: int) -> Seq<BodyModel> {
    s.map_values(|b: BodyModel| integrate_body(b, elapsed))
}

/// One axis of the Euler step: `p + v * elapsed / SCALE`, rounding the
/// scaled product toward zero.
fn scaled_step(p: i64, v: i64, elapsed: i64) -> (r: i64)
    requires
        -POS_LIMIT <= p <= POS_LIMIT,
        -VEL_STEP_LIMIT <= v <= VEL_STEP_LIMIT,
        0 <= elapsed <= TIME_LIMIT,
    ensures
        r == p + div_trunc(v * elapsed, SCALE as int),
{
    let av: u128 = abs_u128(v);
    proof {
        assert(av * (elapsed as u128) <= 1000 * 18014398509481984 && (v >= 0 ==> v * elapsed
            == av * (elapsed as u128)) && (v < 0 ==> v * elapsed == -(av * (elapsed as u128)))
            && (v >= 0 ==> v * elapsed >= 0) && (v < 0 ==> v * elapsed <= 0)) by (nonlinear_arith)
            requires
                av == v || av == -v,
                av >= 0,
                -0x8000_0000_0000 <= v <= 0x8000_0000_0000,
                0 <= elapsed <= 0x1_0000,
        ;
        lemma_div_le((av * (elapsed as u128)) as int, 1000, 18014398509481984);
    }
    let num: u128 = av * (elapsed as u128);
    let q: u128 = num / 1000;
    let qi: i64 = q as i64;
    if v < 0 {
        p - qi
    } else {
        p + qi
    }
}

/// Runs the integrator: every body moves by its velocity times the
/// elapsed time. Does nothing when the simulation is paused.
pub fn update_from_velocity(bodies: &mut Vec<Body>, paused: bool, elapsed: i64)
    requires
        bodies_in_step_range(models(old(bodies)@)),
        0 <= elapsed <= TIME_LIMIT,
    ensures
        models(final(bodies)@) == if paused {
            models(old(bodies)@)
        } else {
            integrate_all(models(old(bodies)@), elapsed as int)
        },
        final(bodies)@.len() == old(bodies)@.len(),
        forall|k: int|
            0 <= k < old(bodies)@.len() ==> #[trigger] models(final(bodies)@)[k] == if paused {
                models(old(bodies)@)[k]
            } else {
                integrate_body(models(old(bodies)@)[k], elapsed as int)
            },
{
    if paused {
        return ;
    }
    let ghost s0 = models(bodies@);
    let n = bodies.len();
    let mut k: usize = 0;
    while k < n
        invariant
            bodies@.len() == n,
            s0.len() == n,
            bodies_in_step_range(s0),
            0 <= elapsed <= TIME_LIMIT,
            k <= n,
            forall|m: int| 0 <= m < k ==> #[trigger] models(bodies@)[m] == integrate_body(
                s0[m],
                elapsed as int,
            ),
            forall|m: int| k <= m < n ==> #[trigger] models(bodies@)[m] == s0[m],
        decreases n - k,
    {
        let b = bodies[k];
        proof {
            assert(b@ == models(bodies@)[k as int]);
            assert(body_in_step_range(s0[k as int]));
        }
        let nx = scaled_step(b.x, b.vx, elapsed);
        let ny = scaled_step(b.y, b.vy, elapsed);
        let ghost mpre = models(bodies@);
        bodies[k] = Body { x: nx, y: ny, ..b };
        proof {
            assert(models(bodies@)[k as int] == integrate_body(s0[k as int], elapsed as int));
            assert forall|m: int| 0 <= m < n && m != k implies #[trigger] models(bodies@)[m]
                == mpre[m] by {
                assert(bodies@[m] == bodies@[m]);
            }
        }
        k += 1;
    }
    proof {
        assert(models(bodies@) =~= integrate_all(s0, elapsed as int));
    }
}

} // verus!
