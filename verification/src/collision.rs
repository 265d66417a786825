//! The collision system: every unordered pair of distinct bodies whose
//! distance is strictly below the threshold has both velocities
//! reversed. A body close to two others in the same frame is reversed
//! twice, a net no-op; this quirk of the pair scan is kept as is.

use vstd::prelude::*;

use crate::body::{
    bodies_in_step_range, body_in_step_range, dist_sq, models, Body, BodyModel, COLLIDE_DIST,
};

verus! {

/// Two bodies closer than `COLLIDE_DIST`, compared on squared
/// distances, which is exact in fixed point.
pub open spec fn close(a: BodyModel, b: BodyModel) -> bool {
    dist_sq(a, b) < (COLLIDE_DIST as int) * (COLLIDE_DIST as int)
}

/// A body with both velocity components reversed.
pub open spec fn negate_velocity(b: BodyModel) -> BodyModel {
    BodyModel { vx: -b.vx, vy: -b.vy, ..b }
}

/// One pair test: both velocities reverse when the pair is close,
/// nothing happens otherwise.
pub open spec fn apply_collision_pair(s: Seq<BodyModel>, i: int, j: int) -> Seq<BodyModel>
    recommends
        0 <= i < j < s.len(),
{
    if close(s[i], s[j]) {
        s.update(i, negate_velocity(s[i])).update(j, negate_velocity(s[j]))
    } else {
        s
    }
}

/// Pairs `(i, i+1) .. (i, j-1)` tested in ascending order of the
/// second index.
pub open spec fn collision_inner(s: Seq<BodyModel>, i: int, j: int) -> Seq<BodyModel>
    decreases j,
{
    if i < 0 || j <= i + 1 || j > s.len() {
        s
    } else {
        apply_collision_pair(collision_inner(s, i, j - 1), i, j - 1)
    }
}

/// All pairs with first index below `i`, visited as the pair scan
/// visits them.
pub open spec fn collision_outer(s: Seq<BodyModel>, i: int) -> Seq<BodyModel>
    decreases i,
{
    if i <= 0 || i > s.len() {
        s
    } else {
        collision_inner(collision_outer(s, i - 1), i - 1, s.len() as int)
    }
}

/// What one run of the collision system leaves behind.
pub open spec fn collision_all(s: Seq<BodyModel>) -> Seq<BodyModel> {
    collision_outer(s, s.len() as int)
}

/// `b` is `a` with each velocity component either kept or reversed;
/// position and mass are untouched.
pub open spec fn velocity_flip_of(b: BodyModel, a: BodyModel) -> bool {
    &&& b.x == a.x
    &&& b.y == a.y
    &&& b.mass == a.mass
    &&& (b.vx == a.vx || b.vx == -a.vx)
    &&& (b.vy == a.vy || b.vy == -a.vy)
}

proof fn lemma_collision_inner_shape(s: Seq<BodyModel>, i: int, j: int)
    requires
        0 <= i,
        i + 1 <= j <= s.len(),
    ensures
        collision_inner(s, i, j).len() == s.len(),
        forall|k: int|
            0 <= k < s.len() ==> velocity_flip_of(#[trigger] collision_inner(s, i, j)[k], s[k]),
    decreases j,
{
    if j <= i + 1 {
    } else {
        lemma_collision_inner_shape(s, i, j - 1);
    }
}

proof fn lemma_collision_outer_shape(s: Seq<BodyModel>, i: int)
    requires
        0 <= i <= s.len(),
    ensures
        collision_outer(s, i).len() == s.len(),
        forall|k: int|
            0 <= k < s.len() ==> velocity_flip_of(#[trigger] collision_outer(s, i)[k], s[k]),
    decreases i,
{
    if i <= 0 {
    } else {
        lemma_collision_outer_shape(s, i - 1);
        if i - 1 + 1 <= s.len() {
            lemma_collision_inner_shape(collision_outer(s, i - 1), i - 1, s.len() as int);
        }
    }
}

/// Runs the collision system: a full scan of the unordered pairs of
/// distinct bodies, reversing both velocities of every close pair.
/// Does nothing when the simulation is paused.
pub fn handle_collision(bodies: &mut Vec<Body>, paused: bool)
    requires
        bodies_in_step_range(models(old(bodies)@)),
    ensures
        models(final(bodies)@) == if paused {
            models(old(bodies)@)
        } else {
            collision_all(models(old(bodies)@))
        },
        final(bodies)@.len() == old(bodies)@.len(),
        forall|k: int|
            0 <= k < old(bodies)@.len() ==> velocity_flip_of(
                #[trigger] models(final(bodies)@)[k],
                models(old(bodies)@)[k],
            ),
        bodies_in_step_range(models(final(bodies)@)),
{
    if paused {
        assert forall|k: int|
            0 <= k < old(bodies)@.len() implies velocity_flip_of(
            #[trigger] models(bodies@)[k],
            models(old(bodies)@)[k],
        ) by {}
        return ;
    }
    let ghost s0 = models(bodies@);
    let n = bodies.len();
    let mut i: usize = 0;
    while i < n
        invariant
            bodies@.len() == n,
            s0.len() == n,
            bodies_in_step_range(s0),
            i <= n,
            models(bodies@) == collision_outer(s0, i as int),
        decreases n - i,
    {
        let ghost rs = collision_outer(s0, i as int);
        let mut j: usize = i + 1;
        proof {
            assert(collision_inner(rs, i as int, j as int) == rs);
        }
        while j < n
            invariant
                bodies@.len() == n,
                s0.len() == n,
                bodies_in_step_range(s0),
                i < n,
                i + 1 <= j <= n,
                rs == collision_outer(s0, i as int),
                models(bodies@) == collision_inner(rs, i as int, j as int),
            decreases n - j,
        {
            proof {
                lemma_collision_outer_shape(s0, i as int);
                lemma_collision_inner_shape(rs, i as int, j as int);
                assert(velocity_flip_of(models(bodies@)[i as int], s0[i as int]));
                assert(velocity_flip_of(models(bodies@)[j as int], s0[j as int]));
                assert(body_in_step_range(s0[i as int]) && body_in_step_range(s0[j as int]));
            }
            let bi = bodies[i];
            let bj = bodies[j];
            proof {
                assert(bi@ == models(bodies@)[i as int]);
                assert(bj@ == models(bodies@)[j as int]);
            }
            let dx: i128 = (bj.x as i128) - (bi.x as i128);
            let dy: i128 = (bj.y as i128) - (bi.y as i128);
            proof {
                assert(dx * dx + dy * dy <= 0x8_0000_0000_0000_0000_0000 && dx * dx >= 0 && dy * dy
                    >= 0) by (nonlinear_arith)
                    requires
                        -0x200_0000_0000 <= dx <= 0x200_0000_0000,
                        -0x200_0000_0000 <= dy <= 0x200_0000_0000,
                ;
            }
            let dsq: i128 = dx * dx + dy * dy;
            proof {
                assert((COLLIDE_DIST as i128) * (COLLIDE_DIST as i128) == 100000000)
                    by (nonlinear_arith)
                    requires
                        COLLIDE_DIST == 10000,
                ;
            }
            let ghost mpre = models(bodies@);
            if dsq < (COLLIDE_DIST as i128) * (COLLIDE_DIST as i128) {
                bodies[i] = Body { vx: -bi.vx, vy: -bi.vy, ..bi };
                bodies[j] = Body { vx: -bj.vx, vy: -bj.vy, ..bj };
                proof {
                    assert(close(mpre[i as int], mpre[j as int]));
                    assert(models(bodies@) =~= apply_collision_pair(mpre, i as int, j as int));
                }
            } else {
                proof {
                    assert(!close(mpre[i as int], mpre[j as int]));
                    assert(models(bodies@) =~= apply_collision_pair(mpre, i as int, j as int));
                }
            }
            proof {
                assert(collision_inner(rs, i as int, j as int + 1) == apply_collision_pair(
                    collision_inner(rs, i as int, j as int),
                    i as int,
                    j as int,
                ));
            }
            j += 1;
        }
        proof {
            assert(collision_outer(s0, i as int + 1) == collision_inner(
                collision_outer(s0, i as int),
                i as int,
                s0.len() as int,
            ));
        }
        i += 1;
    }
    proof {
        assert(models(bodies@) == collision_all(s0));
        lemma_collision_outer_shape(s0, n as int);
        assert forall|k: int|
            0 <= k < old(bodies)@.len() implies velocity_flip_of(
            #[trigger] models(bodies@)[k],
            models(old(bodies)@)[k],
        ) by {}
        assert forall|k: int| 0 <= k < models(bodies@).len() implies body_in_step_range(
            #[trigger] models(bodies@)[k],
        ) by {
            assert(velocity_flip_of(models(bodies@)[k], s0[k]));
            assert(body_in_step_range(s0[k]));
        }
    }
}

/// Law: the collision system on a lone pair is symmetric. When the two
/// bodies are strictly closer than the threshold, both velocities are
/// reversed, not just one; at or beyond the threshold neither changes.
pub proof fn lemma_collision_pair_symmetry(s: Seq<BodyModel>)
    requires
        s.len() == 2,
    ensures
        collision_all(s).len() == 2,
        close(s[0], s[1]) ==> collision_all(s)[0] == negate_velocity(s[0]) && collision_all(s)[1]
            == negate_velocity(s[1]),
        !close(s[0], s[1]) ==> collision_all(s) == s,
{
    assert(collision_outer(s, 1) == collision_inner(collision_outer(s, 0), 0, 2));
    assert(collision_outer(s, 0) == s);
    assert(collision_inner(s, 0, 2) == apply_collision_pair(collision_inner(s, 0, 1), 0, 1));
    assert(collision_inner(s, 0, 1) == s);
    assert(collision_all(s) == collision_inner(collision_outer(s, 1), 1, 2));
    assert(collision_all(s) == apply_collision_pair(s, 0, 1));
}

} // verus!

verus! {

/// How many bodies with index in `[lo, hi)` other than `k` are close
/// to body `k`.
pub open spec fn close_count(s: Seq<BodyModel>, k: int, lo: int, hi: int) -> nat
    decreases hi - lo,
{
    if hi <= lo {
        0
    } else {
        close_count(s, k, lo, hi - 1) + (if hi - 1 != k && close(s[k], s[hi - 1]) {
            1nat
        } else {
            0nat
        })
    }
}

/// `v` negated when `c` is odd.
pub open spec fn flip(v: int, c: nat) -> int {
    if c % 2 == 1 {
        -v
    } else {
        v
    }
}

/// Flipping `a` times and then `b` more times is flipping `a + b` times.
proof fn lemma_flip_add(v: int, a: nat, b: nat)
    ensures
        flip(flip(v, a), b) == flip(v, a + b),
{
}

/// A count range splits at any midpoint.
proof fn lemma_close_count_split(s: Seq<BodyModel>, k: int, lo: int, mid: int, hi: int)
    requires
        lo <= mid <= hi,
    ensures
        close_count(s, k, lo, hi) == close_count(s, k, lo, mid) + close_count(s, k, mid, hi),
    decreases hi - mid,
{
    if mid < hi {
        lemma_close_count_split(s, k, lo, mid, hi - 1);
    }
}

/// Counts agree between two registries whose positions agree.
proof fn lemma_close_count_same_positions(
    s: Seq<BodyModel>,
    t: Seq<BodyModel>,
    k: int,
    lo: int,
    hi: int,
)
    requires
        s.len() == t.len(),
        0 <= k < s.len(),
        0 <= lo,
        hi <= s.len(),
        forall|m: int|
            0 <= m < s.len() ==> #[trigger] t[m].x == s[m].x && t[m].y == s[m].y,
    ensures
        close_count(t, k, lo, hi) == close_count(s, k, lo, hi),
    decreases hi - lo,
{
    if lo < hi {
        lemma_close_count_same_positions(s, t, k, lo, hi - 1);
        if hi - 1 != k {
            assert(close(t[k], t[hi - 1]) == close(s[k], s[hi - 1]));
        }
    }
}

proof fn lemma_collision_inner_parity(s: Seq<BodyModel>, i: int, j: int)
    requires
        0 <= i < s.len(),
        i + 1 <= j <= s.len(),
    ensures
        collision_inner(s, i, j).len() == s.len(),
        forall|k: int|
            0 <= k < s.len() ==> #[trigger] collision_inner(s, i, j)[k].x == s[k].x
                && collision_inner(s, i, j)[k].y == s[k].y && collision_inner(s, i, j)[k].mass
                == s[k].mass,
        collision_inner(s, i, j)[i].vx == flip(s[i].vx, close_count(s, i, i + 1, j)),
        collision_inner(s, i, j)[i].vy == flip(s[i].vy, close_count(s, i, i + 1, j)),
        forall|k: int|
            i < k < j ==> #[trigger] collision_inner(s, i, j)[k].vx == flip(
                s[k].vx,
                close_count(s, k, i, i + 1),
            ) && collision_inner(s, i, j)[k].vy == flip(s[k].vy, close_count(s, k, i, i + 1)),
        forall|k: int|
            0 <= k < s.len() && k != i && !(i < k < j) ==> #[trigger] collision_inner(
                s,
                i,
                j,
            )[k].vx == s[k].vx && collision_inner(s, i, j)[k].vy == s[k].vy,
    decreases j,
{
    if j <= i + 1 {
    } else {
        lemma_collision_inner_parity(s, i, j - 1);
        let prev = collision_inner(s, i, j - 1);
        let cur = apply_collision_pair(prev, i, j - 1);
        assert(collision_inner(s, i, j) == cur);
        assert(close(prev[i], prev[j - 1]) == close(s[i], s[j - 1]));
        assert(close(s[j - 1], s[i]) == close(s[i], s[j - 1])) by {
            assert(dist_sq(s[j - 1], s[i]) == dist_sq(s[i], s[j - 1])) by (nonlinear_arith);
        }
        assert(close_count(s, j - 1, i, i) == 0);
        if close(s[i], s[j - 1]) {
            assert(close_count(s, i, i + 1, j) == close_count(s, i, i + 1, j - 1) + 1);
            assert(close_count(s, j - 1, i, i + 1) == 1);
            lemma_flip_add(s[i].vx, close_count(s, i, i + 1, j - 1), 1);
            lemma_flip_add(s[i].vy, close_count(s, i, i + 1, j - 1), 1);
        } else {
            assert(close_count(s, i, i + 1, j) == close_count(s, i, i + 1, j - 1));
            assert(close_count(s, j - 1, i, i + 1) == 0);
        }
    }
}

proof fn lemma_collision_outer_parity(s: Seq<BodyModel>, i: int)
    requires
        0 <= i <= s.len(),
    ensures
        collision_outer(s, i).len() == s.len(),
        forall|k: int|
            0 <= k < s.len() ==> #[trigger] collision_outer(s, i)[k].x == s[k].x
                && collision_outer(s, i)[k].y == s[k].y && collision_outer(s, i)[k].mass
                == s[k].mass,
        forall|k: int|
            0 <= k < i ==> #[trigger] collision_outer(s, i)[k].vx == flip(
                s[k].vx,
                close_count(s, k, 0, s.len() as int),
            ) && collision_outer(s, i)[k].vy == flip(s[k].vy, close_count(s, k, 0, s.len() as int)),
        forall|k: int|
            i <= k < s.len() ==> #[trigger] collision_outer(s, i)[k].vx == flip(
                s[k].vx,
                close_count(s, k, 0, i),
            ) && collision_outer(s, i)[k].vy == flip(s[k].vy, close_count(s, k, 0, i)),
    decreases i,
{
    let n = s.len() as int;
    if i <= 0 {
    } else {
        lemma_collision_outer_parity(s, i - 1);
        let t = collision_outer(s, i - 1);
        let r = i - 1;
        lemma_collision_inner_parity(t, r, n);
        let cur = collision_inner(t, r, n);
        assert(collision_outer(s, i) == cur);
        assert forall|k: int| 0 <= k < n implies #[trigger] cur[k].x == s[k].x && cur[k].y
            == s[k].y && cur[k].mass == s[k].mass by {
            assert(t[k].x == s[k].x && t[k].y == s[k].y && t[k].mass == s[k].mass);
        }
        lemma_close_count_same_positions(s, t, r, r + 1, n);
        lemma_close_count_split(s, r, 0, r, n);
        lemma_close_count_split(s, r, r, r + 1, n);
        assert(close_count(s, r, r, r) == 0);
        assert(close_count(s, r, r, r + 1) == 0);
        lemma_flip_add(s[r].vx, close_count(s, r, 0, r), close_count(s, r, r + 1, n));
        lemma_flip_add(s[r].vy, close_count(s, r, 0, r), close_count(s, r, r + 1, n));
        assert(cur[r].vx == flip(s[r].vx, close_count(s, r, 0, n)));
        assert(cur[r].vy == flip(s[r].vy, close_count(s, r, 0, n)));
        assert forall|k: int| r < k < n implies #[trigger] cur[k].vx == flip(
            s[k].vx,
            close_count(s, k, 0, i),
        ) && cur[k].vy == flip(s[k].vy, close_count(s, k, 0, i)) by {
            assert(close(t[r], t[k]) == close(s[r], s[k]));
            assert(close(t[k], t[r]) == close(s[k], s[r]));
            assert(close_count(t, k, r, r) == 0);
            assert(close_count(t, k, r, r + 1) == if close(s[k], s[r]) {
                1nat
            } else {
                0nat
            });
            assert(close(s[k], s[r]) == close(s[r], s[k])) by {
                assert(dist_sq(s[k], s[r]) == dist_sq(s[r], s[k])) by (nonlinear_arith);
            }
            assert(close_count(s, k, 0, i) == close_count(s, k, 0, r) + (if close(s[k], s[r]) {
                1nat
            } else {
                0nat
            }));
            lemma_flip_add(
                s[k].vx,
                close_count(s, k, 0, r),
                if close(s[k], s[r]) {
                    1nat
                } else {
                    0nat
                },
            );
            lemma_flip_add(
                s[k].vy,
                close_count(s, k, 0, r),
                if close(s[k], s[r]) {
                    1nat
                } else {
                    0nat
                },
            );
        }
    }
}

/// Law: one run of the collision system reverses a body's velocity
/// exactly when its number of close neighbours is odd. Each qualifying
/// pair reverses both of its bodies independently, so a body within
/// threshold of two others in the same frame is reversed twice, a net
/// no-op; positions and masses never change.
pub proof fn lemma_collision_parity(s: Seq<BodyModel>)
    ensures
        collision_all(s).len() == s.len(),
        forall|k: int|
            0 <= k < s.len() ==> #[trigger] collision_all(s)[k] == (BodyModel {
                vx: flip(s[k].vx, close_count(s, k, 0, s.len() as int)),
                vy: flip(s[k].vy, close_count(s, k, 0, s.len() as int)),
                ..s[k]
            }),
{
    lemma_collision_outer_parity(s, s.len() as int);
    let n = s.len() as int;
    assert forall|k: int| 0 <= k < s.len() implies #[trigger] collision_all(s)[k] == (BodyModel {
        vx: flip(s[k].vx, close_count(s, k, 0, n)),
        vy: flip(s[k].vy, close_count(s, k, 0, n)),
        ..s[k]
    }) by {
        assert(collision_all(s)[k].x == s[k].x);
        assert(collision_all(s)[k].y == s[k].y);
        assert(collision_all(s)[k].mass == s[k].mass);
        assert(collision_all(s)[k].vx == flip(s[k].vx, close_count(s, k, 0, n)));
        assert(collision_all(s)[k].vy == flip(s[k].vy, close_count(s, k, 0, n)));
    }
}

} // verus!
