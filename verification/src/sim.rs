//! The simulation state and the per-frame pipeline: the body registry,
//! the single pause flag, and the two axis indexes, advanced one frame
//! at a time in the fixed order gravity, collision, integration, index
//! refresh.

use vstd::prelude::*;

use crate::body::{
    bodies_in_start_range, models, Body, BodyModel, MASS_LIMIT, N_LIMIT, POS_LIMIT, TIME_LIMIT,
};
use crate::collision::{collision_all, handle_collision};
use crate::gravity::{gravity_all, update_from_gravity};
use crate::index::{
    build_index_x, build_index_y, distinct_ids, maintain_sorted_entities_x, raw_index_x,
    raw_index_y, sorted_by_key, IndexEntry,
};
use crate::motion::{integrate_all, update_from_velocity};

verus! {

/// The whole simulation: the body registry, the one pause flag, and
/// the derived axis indexes. The y index is kept from startup as the
/// registry was created; only the x index is re-sorted every frame.
pub struct SimState {
    pub bodies: Vec<Body>,
    pub paused: bool,
    pub index_x: Vec<IndexEntry>,
    pub index_y: Vec<IndexEntry>,
}

/// What one frame does to the body models: nothing when paused, else
/// gravity, then collision, then integration, in that fixed order.
pub open spec fn frame_spec(s: Seq<BodyModel>, elapsed: int, paused: bool) -> Seq<BodyModel> {
    if paused {
        s
    } else {
        integrate_all(collision_all(gravity_all(s)), elapsed)
    }
}

/// The pause flag after `times` toggles.
pub open spec fn toggled(p: bool, times: nat) -> bool
    decreases times,
{
    if times == 0 {
        p
    } else {
        !toggled(p, (times - 1) as nat)
    }
}

/// Law: an even number of pause toggles leaves the flag as it was, an
/// odd number flips it. One `pause_game` call on a rising edge performs
/// one such toggle.
pub proof fn lemma_pause_toggle_parity(p: bool, times: nat)
    ensures
        times % 2 == 0 ==> toggled(p, times) == p,
        times % 2 == 1 ==> toggled(p, times) == !p,
    decreases times,
{
    if times > 0 {
        lemma_pause_toggle_parity(p, (times - 1) as nat);
    }
}

impl SimState {
    /// The mathematical value of the body registry.
    pub open spec fn bodies_model(self) -> Seq<BodyModel> {
        models(self.bodies@)
    }

    /// Creates the simulation: `count` bodies of one mass along the
    /// x axis at `spacing` ticks apart, at rest, unpaused, with both
    /// axis indexes filled in registry order.
    pub fn setup(count: usize, spacing: i64, mass: u32) -> (sim: SimState)
        requires
            count <= N_LIMIT,
            0 < mass <= MASS_LIMIT,
            0 <= spacing,
            spacing * (count as int) <= POS_LIMIT,
        ensures
            sim.bodies@.len() == count,
            forall|k: int|
                0 <= k < count ==> #[trigger] sim.bodies_model()[k] == (BodyModel {
                    x: spacing * k,
                    y: 0,
                    vx: 0,
                    vy: 0,
                    mass: mass as int,
                }),
            sim.paused == false,
            sim.index_x@ == raw_index_x(sim.bodies@),
            sim.index_y@ == raw_index_y(sim.bodies@),
            bodies_in_start_range(sim.bodies_model()),
    {
        let mut bodies: Vec<Body> = Vec::new();
        let mut k: usize = 0;
        while k < count
            invariant
                k <= count,
                count <= N_LIMIT,
                0 < mass <= MASS_LIMIT,
                0 <= spacing,
                spacing * (count as int) <= POS_LIMIT,
                bodies@.len() == k,
                forall|m: int|
                    0 <= m < k ==> #[trigger] models(bodies@)[m] == (BodyModel {
                        x: spacing * m,
                        y: 0,
                        vx: 0,
                        vy: 0,
                        mass: mass as int,
                    }),
            decreases count - k,
        {
            proof {
                assert(0 <= spacing * (k as int) && spacing * (k as int) <= spacing * (count as int)
                    && spacing * (k as int + 1) <= spacing * (count as int)) by (nonlinear_arith)
                    requires
                        0 <= spacing,
                        0 <= k as int,
                        k as int + 1 <= count as int,
                ;
            }
            let x: i64 = spacing * (k as i64);
            let ghost mpre = models(bodies@);
            bodies.push(Body { x, y: 0, vx: 0, vy: 0, mass });
            proof {
                assert forall|m: int| 0 <= m < k + 1 implies #[trigger] models(bodies@)[m]
                    == (BodyModel {
                    x: spacing * m,
                    y: 0,
                    vx: 0,
                    vy: 0,
                    mass: mass as int,
                }) by {
                    if m < k {
                        assert(models(bodies@)[m] == mpre[m]);
                    }
                }
            }
            k += 1;
        }
        let index_x = build_index_x(&bodies);
        let index_y = build_index_y(&bodies);
        let sim = SimState { bodies, paused: false, index_x, index_y };
        proof {
            assert forall|m: int| 0 <= m < sim.bodies_model().len() implies
                crate::body::body_in_start_range(#[trigger] sim.bodies_model()[m]) by {
                assert(0 <= spacing * m <= POS_LIMIT) by (nonlinear_arith)
                    requires
                        0 <= spacing,
                        0 <= m,
                        m + 1 <= count as int,
                        spacing * (count as int) <= POS_LIMIT,
                ;
            }
        }
        sim
    }

    /// Toggles the pause flag on a rising edge of the pause input; a
    /// held or repeated key (`just_pressed == false`) has no effect.
    /// Nothing else in the simulation changes.
    pub fn pause_game(&mut self, just_pressed: bool)
        ensures
            final(self).paused == if just_pressed {
                !old(self).paused
            } else {
                old(self).paused
            },
            final(self).bodies == old(self).bodies,
            final(self).index_x == old(self).index_x,
            final(self).index_y == old(self).index_y,
    {
        if just_pressed {
            self.paused = !self.paused;
        }
    }

    /// Reads the pause flag.
    pub fn is_paused(&self) -> (r: bool)
        ensures
            r == self.paused,
    {
        self.paused
    }

    /// One frame: gravity, collision and integration in that fixed
    /// order, each a no-op while paused, then the x index refresh,
    /// which runs whether or not the simulation is paused.
    pub fn step(&mut self, elapsed: i64)
        requires
            bodies_in_start_range(old(self).bodies_model()),
            0 <= elapsed <= TIME_LIMIT,
        ensures
            final(self).bodies_model() == frame_spec(
                old(self).bodies_model(),
                elapsed as int,
                old(self).paused,
            ),
            final(self).paused == old(self).paused,
            final(self).bodies@.len() == old(self).bodies@.len(),
            final(self).index_y == old(self).index_y,
            final(self).index_x@.len() == final(self).bodies@.len(),
            sorted_by_key(final(self).index_x@),
            final(self).index_x@.to_multiset() == raw_index_x(final(self).bodies@).to_multiset(),
            distinct_ids(final(self).index_x@),
            forall|k: int|
                0 <= k < final(self).bodies@.len() ==> #[trigger] final(self).index_x@.contains(
                    raw_index_x(final(self).bodies@)[k],
                ),
    {
        let paused = self.paused;
        update_from_gravity(&mut self.bodies, paused);
        handle_collision(&mut self.bodies, paused);
        update_from_velocity(&mut self.bodies, paused, elapsed);
        maintain_sorted_entities_x(&self.bodies, &mut self.index_x);
    }
}

} // verus!
