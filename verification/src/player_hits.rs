//! The enemies' lasers against the player.
//!
//! Once per step the lasers of the enemies are matched against the player,
//! if there is one. The first that overlaps it destroys it, and the scan
//! ends there.
use crate::bodies::{collide, overlaps, Body};
use crate::explosion::ExplosionToSpawn;
use crate::resources::PlayerState;
use vstd::prelude::*;

verus! {

/// An enemy's laser has destroyed the player: both are to be despawned,
/// and an explosion is to be spawned where the player was.
#[derive(Clone, Copy, Debug, PartialEq, Eq, Structural)]
pub struct PlayerHit {
    pub player: u64,
    pub laser: u64,
    pub explosion: ExplosionToSpawn,
}

/// Whether laser `i` is the first in the list whose box overlaps the
/// player's.
pub open spec fn is_first_strike(lasers: Seq<Body>, player: Body, i: int) -> bool {
    &&& 0 <= i < lasers.len()
    &&& overlaps(lasers[i], player)
    &&& forall|k: int| 0 <= k < i ==> !overlaps(lasers[k], player)
}

/// What one pass of the enemies' lasers does to the player: the first
/// laser in the list that overlaps the player destroys it. Without a
/// player, or without such a laser, nothing happens.
pub open spec fn player_hit(lasers: Seq<Body>, player: Option<Body>) -> Option<PlayerHit> {
    match player {
        Some(player) => {
            if exists|i: int| is_first_strike(lasers, player, i) {
                let i = choose|i: int| is_first_strike(lasers, player, i);
                Some(
                    PlayerHit {
                        player: player.entity,
                        laser: lasers[i].entity,
                        explosion: ExplosionToSpawn(player.translation),
                    },
                )
            } else {
                None
            }
        },
        None => None,
    }
}

/// The first laser in the list that overlaps the player is the one that
/// destroys it.
pub proof fn lemma_first_strike_hits(lasers: Seq<Body>, player: Body, i: int)
    requires
        is_first_strike(lasers, player, i),
    ensures
        player_hit(lasers, Some(player)) == Some(
            PlayerHit {
                player: player.entity,
                laser: lasers[i].entity,
                explosion: ExplosionToSpawn(player.translation),
            },
        ),
{
    let chosen = choose|i: int| is_first_strike(lasers, player, i);
    if chosen < i {
        assert(!overlaps(lasers[chosen], player));
    }
    if i < chosen {
        assert(!overlaps(lasers[i], player));
    }
}

/// The player is hit exactly when some laser in the list overlaps it.
pub proof fn lemma_player_hit_iff_struck(lasers: Seq<Body>, player: Body)
    ensures
        player_hit(lasers, Some(player)) is Some <==> exists|i: int|
            0 <= i < lasers.len() && overlaps(#[trigger] lasers[i], player),
{
    if exists|i: int| 0 <= i < lasers.len() && overlaps(#[trigger] lasers[i], player) {
        let i = choose|i: int| 0 <= i < lasers.len() && overlaps(#[trigger] lasers[i], player);
        lemma_strike_has_first(lasers, player, i);
    }
    if player_hit(lasers, Some(player)) is Some {
        let i = choose|i: int| is_first_strike(lasers, player, i);
        assert(overlaps(lasers[i], player));
    }
}

/// Where some laser overlaps the player, one of them is the first.
proof fn lemma_strike_has_first(lasers: Seq<Body>, player: Body, i: int)
    requires
        0 <= i < lasers.len(),
        overlaps(lasers[i], player),
    ensures
        exists|t: int| is_first_strike(lasers, player, t),
    decreases i,
{
    if exists|k: int| 0 <= k < i && overlaps(#[trigger] lasers[k], player) {
        let k = choose|k: int| 0 <= k < i && overlaps(#[trigger] lasers[k], player);
        lemma_strike_has_first(lasers, player, k);
    } else {
        assert(is_first_strike(lasers, player, i));
    }
}

/// Matches the enemies' lasers against the player, if there is one. The
/// first laser in the list that overlaps the player destroys it and is
/// destroyed with it; the player's state then records the shot at `time`.
/// The scan ends there: the player dies once per step.
pub fn enemy_laster_hit_player_system(
    player_state: &mut PlayerState,
    time: i64,
    lasers: &Vec<Body>,
    player: Option<Body>,
) -> (hit: Option<PlayerHit>)
    ensures
        hit == player_hit(lasers@, player),
        hit is Some ==> *final(player_state) == (PlayerState { on: false, last_shot: time }),
        hit is None ==> *final(player_state) == *old(player_state),
{
    match player {
        Some(ship) => {
            let mut i: usize = 0;
            while i < lasers.len()
                invariant
                    0 <= i <= lasers.len(),
                    player == Some(ship),
                    forall|k: int| 0 <= k < i ==> !overlaps(lasers@[k], ship),
                    *player_state == *old(player_state),
                decreases lasers.len() - i,
            {
                let laser = lasers[i];
                if collide(&laser, &ship) {
                    proof {
                        lemma_first_strike_hits(lasers@, ship, i as int);
                    }
                    player_state.shot(time);
                    return Some(
                        PlayerHit {
                            player: ship.entity,
                            laser: laser.entity,
                            explosion: ExplosionToSpawn(ship.translation),
                        },
                    );
                }
                i += 1;
            }
            None
        },
        None => None,
    }
}

} // verus!
