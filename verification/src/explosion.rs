//! Explosions: from the request to spawn one to its last frame.
//!
//! An explosion is a short animation. It is spawned at frame 0 with a
//! repeating timer; each time the timer completes in a step the frame
//! goes up by one, and the explosion ends on the step that would take it
//! past its last frame.
use crate::geometry::Point;
use crate::timer::tick_repeating;
use vstd::prelude::*;

verus! {

/// Number of frames of an explosion.
pub const EXPLOSION_LEN: usize = 16;

/// Time for which one frame is shown, in microseconds.
pub const EXPLOSION_FRAME_MICROS: u32 = 50_000;

/// A request to spawn an explosion at a position.
#[derive(Clone, Copy, Debug, PartialEq, Eq, Structural)]
pub struct ExplosionToSpawn(pub Point);

/// The repeating timer of an explosion: the microseconds run since the
/// frame last changed.
#[derive(Clone, Copy, Debug, PartialEq, Eq, Structural)]
pub struct ExplosionTimer {
    pub elapsed: u32,
}

impl ExplosionTimer {
    /// Whether a step of `delta` microseconds completes the timer.
    pub open spec fn completes(self, delta: u32) -> bool {
        self.elapsed + delta >= EXPLOSION_FRAME_MICROS
    }

    /// The timer after a step of `delta` microseconds: whole intervals are
    /// taken out of the time run.
    pub open spec fn ticked(self, delta: u32) -> ExplosionTimer {
        ExplosionTimer { elapsed: ((self.elapsed + delta) % (EXPLOSION_FRAME_MICROS as int)) as u32 }
    }

    /// Advances the timer by `delta` microseconds and tells whether it
    /// completed in this step.
    pub fn tick(&mut self, delta: u32) -> (finished: bool)
        ensures
            *final(self) == old(self).ticked(delta),
            finished == old(self).completes(delta),
    {
        let after = tick_repeating(EXPLOSION_FRAME_MICROS as u64, self.elapsed as u64, delta as u64);
        self.elapsed = after.0 as u32;
        after.1
    }
}

impl Default for ExplosionTimer {
    fn default() -> (timer: ExplosionTimer)
        ensures
            timer == (ExplosionTimer { elapsed: 0 }),
    {
        ExplosionTimer { elapsed: 0 }
    }
}

/// An explosion that is playing: where it is, which frame it shows, and
/// its timer.
#[derive(Clone, Copy, Debug, PartialEq, Eq, Structural)]
pub struct Explosion {
    pub translation: Point,
    pub index: usize,
    pub timer: ExplosionTimer,
}

impl Explosion {
    /// The explosion that a request starts: at the requested position, on
    /// frame 0, with a fresh timer.
    pub open spec fn started(request: ExplosionToSpawn) -> Explosion {
        Explosion { translation: request.0, index: 0, timer: ExplosionTimer { elapsed: 0 } }
    }

    /// The explosion after a step in which its timer did or did not
    /// complete. Without a completion nothing changes. With one the frame
    /// goes up by one, and the explosion ends if that leaves the frames.
    pub open spec fn advanced(self, completed: bool) -> Option<Explosion> {
        if !completed {
            Some(self)
        } else if self.index + 1 >= EXPLOSION_LEN {
            None
        } else {
            Some(Explosion { index: (self.index + 1) as usize, ..self })
        }
    }

    /// The explosion after a step of `delta` microseconds.
    pub open spec fn animated(self, delta: u32) -> Option<Explosion> {
        (Explosion { timer: self.timer.ticked(delta), ..self }).advanced(
            self.timer.completes(delta),
        )
    }

    /// Starts the explosion that the request asks for.
    pub fn spawn(request: ExplosionToSpawn) -> (explosion: Explosion)
        ensures
            explosion == Explosion::started(request),
    {
        Explosion { translation: request.0, index: 0, timer: ExplosionTimer::default() }
    }

    /// Takes the explosion through a step in which its timer did or did
    /// not complete. `None` says that it has ended.
    pub fn advance(self, completed: bool) -> (next: Option<Explosion>)
        ensures
            next == self.advanced(completed),
    {
        if !completed {
            Some(self)
        } else if self.index >= EXPLOSION_LEN - 1 {
            None
        } else {
            Some(Explosion { translation: self.translation, index: self.index + 1, timer: self.timer })
        }
    }

    /// Takes the explosion through a step of `delta` microseconds: the
    /// timer is ticked, and the frame follows it. `None` says that the
    /// explosion has ended.
    pub fn animate(self, delta: u32) -> (next: Option<Explosion>)
        ensures
            next == self.animated(delta),
    {
        let mut timer = self.timer;
        let finished = timer.tick(delta);
        let ticked = Explosion { translation: self.translation, index: self.index, timer };
        ticked.advance(finished)
    }
}

/// Turns each request into an explosion on its first frame, in order. The
/// requests are used up.
pub fn explosion_to_spawn_system(requests: Vec<ExplosionToSpawn>) -> (explosions: Vec<Explosion>)
    ensures
        explosions@ == requests@.map_values(|request: ExplosionToSpawn| Explosion::started(request)),
{
    let mut explosions: Vec<Explosion> = Vec::new();
    let mut i: usize = 0;
    while i < requests.len()
        invariant
            0 <= i <= requests.len(),
            explosions@ == requests@.take(i as int).map_values(
                |request: ExplosionToSpawn| Explosion::started(request),
            ),
        decreases requests.len() - i,
    {
        explosions.push(Explosion::spawn(requests[i]));
        i += 1;
        assert(requests@.take(i as int) == requests@.take(i - 1).push(requests@[i - 1]));
    }
    assert(requests@.take(i as int) == requests@);
    explosions
}

/// The explosions that are left after a step of `delta` microseconds, in
/// order: each is animated, and those that have ended are dropped.
pub open spec fn survivors(explosions: Seq<Explosion>, delta: u32) -> Seq<Explosion> {
    explosions.filter_map(|explosion: Explosion| explosion.animated(delta))
}

/// Takes every explosion through a step of `delta` microseconds and drops
/// those that have ended.
pub fn explosion_animation_system(explosions: &mut Vec<Explosion>, delta: u32)
    ensures
        final(explosions)@ == survivors(old(explosions)@, delta),
{
    let mut kept: Vec<Explosion> = Vec::new();
    let mut i: usize = 0;
    while i < explosions.len()
        invariant
            0 <= i <= explosions.len(),
            explosions@ == old(explosions)@,
            kept@ == survivors(explosions@.take(i as int), delta),
        decreases explosions.len() - i,
    {
        proof {
            explosions@.lemma_filter_map_take_succ(
                |explosion: Explosion| explosion.animated(delta),
                i as int,
            );
        }
        match explosions[i].animate(delta) {
            Some(next) => {
                kept.push(next);
            },
            None => {},
        }
        i += 1;
    }
    assert(explosions@.take(i as int) == explosions@);
    *explosions = kept;
}

/// The explosion after `completions` completions of its timer.
pub open spec fn after_completions(explosion: Explosion, completions: nat) -> Option<Explosion>
    decreases completions,
{
    if completions == 0 {
        Some(explosion)
    } else {
        match after_completions(explosion, (completions - 1) as nat) {
            Some(playing) => playing.advanced(true),
            None => None,
        }
    }
}

/// An explosion shows one frame more per completion of its timer and ends
/// on the completion that would take it past its last frame: from frame 0
/// it is on frame `k` after `k < 16` completions, and gone after 16.
pub proof fn lemma_explosion_ends_after_last_frame(explosion: Explosion, completions: nat)
    requires
        explosion.index < EXPLOSION_LEN,
    ensures
        explosion.index + completions < EXPLOSION_LEN ==> after_completions(explosion, completions)
            == Some(Explosion { index: (explosion.index + completions) as usize, ..explosion }),
        explosion.index + completions >= EXPLOSION_LEN ==> after_completions(
            explosion,
            completions,
        ) is None,
    decreases completions,
{
    if completions > 0 {
        lemma_explosion_ends_after_last_frame(explosion, (completions - 1) as nat);
    }
}

} // verus!
