//! Straight-line movement, and the removal of what has left the play field.
use crate::geometry::{fx_mul, trunc_div, Point, WinSize, ONE};
use vstd::prelude::*;

verus! {

/// Simulation steps per second: one step lasts a sixtieth of a second.
pub const STEPS_PER_SECOND: i32 = 60;

/// Distance covered in one second at a velocity of `ONE`.
pub const BASE_SPEED: i32 = 500 * ONE;

/// How far beyond the window's edges an entity may stray before it is
/// removed.
pub const DESPAWN_MARGIN: i32 = 200 * ONE;

/// What the integrator reads of an entity: its name, where it is, how fast
/// it moves, and whether it is removed once it has left the play field.
#[derive(Clone, Copy, Debug, PartialEq, Eq, Structural)]
pub struct Mover {
    pub entity: u64,
    pub translation: Point,
    pub velocity: Point,
    pub auto_despawn: bool,
}

/// Distance covered along one axis in one step at the given velocity: the
/// velocity times the base speed, over the steps in a second, rounded
/// toward zero.
pub open spec fn step_offset(velocity: int) -> int {
    trunc_div(fx_mul(velocity, BASE_SPEED as int), STEPS_PER_SECOND as int)
}

/// Computes the distance covered along one axis in one step.
pub fn axis_offset(velocity: i32) -> (offset: i64)
    ensures
        offset == step_offset(velocity as int),
{
    (velocity as i64) * (BASE_SPEED as i64) / (ONE as i64) / (STEPS_PER_SECOND as i64)
}

/// Whether a point lies beyond the despawn margin around the window, on
/// any of its four sides.
pub open spec fn beyond_margin(win_size: WinSize, point: Point) -> bool {
    ||| point.y > win_size.half_h() + DESPAWN_MARGIN
    ||| point.y < -win_size.half_h() - DESPAWN_MARGIN
    ||| point.x > win_size.half_w() + DESPAWN_MARGIN
    ||| point.x < -win_size.half_w() - DESPAWN_MARGIN
}

impl Mover {
    /// Whether the position after one step can be held in the coordinates.
    pub open spec fn can_step(self) -> bool {
        &&& i32::MIN <= self.translation.x + step_offset(self.velocity.x as int) <= i32::MAX
        &&& i32::MIN <= self.translation.y + step_offset(self.velocity.y as int) <= i32::MAX
    }

    /// The entity one step later.
    pub open spec fn stepped(self) -> Mover {
        Mover {
            translation: Point {
                x: (self.translation.x + step_offset(self.velocity.x as int)) as i32,
                y: (self.translation.y + step_offset(self.velocity.y as int)) as i32,
            },
            ..self
        }
    }

    /// Whether the entity is to be removed where it stands.
    pub open spec fn leaves(self, win_size: WinSize) -> bool {
        self.auto_despawn && beyond_margin(win_size, self.translation)
    }

    /// Tests whether the position after one step can be held in the
    /// coordinates.
    pub fn can_advance(&self) -> (ok: bool)
        ensures
            ok == self.can_step(),
    {
        let x: i64 = self.translation.x as i64 + axis_offset(self.velocity.x);
        let y: i64 = self.translation.y as i64 + axis_offset(self.velocity.y);
        i32::MIN as i64 <= x && x <= i32::MAX as i64 && i32::MIN as i64 <= y && y <= i32::MAX as i64
    }

    /// Moves the entity by one step.
    pub fn advance(&mut self)
        requires
            old(self).can_step(),
        ensures
            *final(self) == old(self).stepped(),
    {
        self.translation.x = (self.translation.x as i64 + axis_offset(self.velocity.x)) as i32;
        self.translation.y = (self.translation.y as i64 + axis_offset(self.velocity.y)) as i32;
    }

    /// Tests whether the entity is to be removed where it stands.
    pub fn is_leaving(&self, win_size: &WinSize) -> (leaving: bool)
        ensures
            leaving == self.leaves(*win_size),
    {
        let half_w: i64 = (win_size.w / 2) as i64;
        let half_h: i64 = (win_size.h / 2) as i64;
        let margin: i64 = DESPAWN_MARGIN as i64;
        let x: i64 = self.translation.x as i64;
        let y: i64 = self.translation.y as i64;
        self.auto_despawn && (y > half_h + margin || y < -half_h - margin || x > half_w + margin
            || x < -half_w - margin)
    }
}

/// The entities to remove, in list order: those that are marked for it and
/// stand beyond the margin.
pub open spec fn despawns(win_size: WinSize, movers: Seq<Mover>) -> Seq<u64> {
    movers.filter_map(
        |mover: Mover|
            if mover.leaves(win_size) {
                Some(mover.entity)
            } else {
                None
            },
    )
}

/// Moves every entity by one step and names those to remove: the ones
/// marked for it whose new position lies beyond the despawn margin.
pub fn movable_system(win_size: &WinSize, movers: &mut Vec<Mover>) -> (despawned: Vec<u64>)
    requires
        forall|i: int| 0 <= i < old(movers)@.len() ==> old(movers)@[i].can_step(),
    ensures
        final(movers)@ == old(movers)@.map_values(|mover: Mover| mover.stepped()),
        despawned@ == despawns(*win_size, final(movers)@),
{
    let mut despawned: Vec<u64> = Vec::new();
    let ghost goal = old(movers)@.map_values(|mover: Mover| mover.stepped());
    let mut i: usize = 0;
    while i < movers.len()
        invariant
            0 <= i <= movers.len(),
            movers.len() == old(movers)@.len(),
            goal == old(movers)@.map_values(|mover: Mover| mover.stepped()),
            forall|k: int| 0 <= k < i ==> movers@[k] == goal[k],
            forall|k: int| i <= k < movers.len() ==> movers@[k] == old(movers)@[k],
            forall|k: int| 0 <= k < old(movers)@.len() ==> old(movers)@[k].can_step(),
            despawned@ == despawns(*win_size, goal.take(i as int)),
        decreases movers.len() - i,
    {
        let mut mover = movers[i];
        mover.advance();
        proof {
            goal.lemma_filter_map_take_succ(
                |mover: Mover|
                    if mover.leaves(*win_size) {
                        Some(mover.entity)
                    } else {
                        None
                    },
                i as int,
            );
        }
        if mover.is_leaving(win_size) {
            despawned.push(mover.entity);
        }
        movers[i] = mover;
        i += 1;
    }
    assert(movers@ == goal);
    assert(goal.take(i as int) == goal);
    despawned
}

} // verus!
