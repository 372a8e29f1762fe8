//! The player's lasers against the enemies.
//!
//! Once per step every laser of the player is matched against the enemies.
//! A laser destroys the first enemy that it overlaps and is destroyed with
//! it. Whatever a hit has destroyed takes no further part in the pass, so
//! no entity is destroyed twice.
use crate::bodies::{collide, overlaps, Body};
use crate::explosion::ExplosionToSpawn;
use crate::resources::EnemyCount;
use std::collections::HashSet;
use vstd::prelude::*;

verus! {

/// One laser of the player has destroyed one enemy: both are to be
/// despawned, and an explosion is to be spawned where the enemy was.
#[derive(Clone, Copy, Debug, PartialEq, Eq, Structural)]
pub struct Hit {
    pub laser: u64,
    pub enemy: u64,
    pub explosion: ExplosionToSpawn,
}

impl Hit {
    /// Whether the hit destroys the entity.
    pub open spec fn involves(self, entity: u64) -> bool {
        self.laser == entity || self.enemy == entity
    }
}

/// The entities that the hits have destroyed.
pub open spec fn resolved(hits: Seq<Hit>) -> Set<u64> {
    Set::new(|entity: u64| exists|k: int| 0 <= k < hits.len() && (#[trigger] hits[k]).involves(entity))
}

/// Whether enemy `j` can be hit by the laser: it is not destroyed yet, and
/// its box overlaps the laser's.
pub open spec fn is_target(laser: Body, enemies: Seq<Body>, gone: Set<u64>, j: int) -> bool {
    &&& 0 <= j < enemies.len()
    &&& !gone.contains(enemies[j].entity)
    &&& overlaps(laser, enemies[j])
}

/// Whether enemy `j` is the first in the list that the laser can hit.
pub open spec fn is_first_target(laser: Body, enemies: Seq<Body>, gone: Set<u64>, j: int) -> bool {
    &&& is_target(laser, enemies, gone, j)
    &&& forall|k: int| 0 <= k < j ==> !is_target(laser, enemies, gone, k)
}

/// The first enemy in the list that the laser can hit, if there is one.
pub open spec fn first_target(laser: Body, enemies: Seq<Body>, gone: Set<u64>) -> Option<int> {
    if exists|j: int| is_first_target(laser, enemies, gone, j) {
        Some(choose|j: int| is_first_target(laser, enemies, gone, j))
    } else {
        None
    }
}

/// The hits of the first `n` lasers, in the order in which they fall. The
/// lasers take their turn in list order. A laser that an earlier hit
/// destroyed is passed over; any other hits the first enemy that it can
/// hit, if there is one.
pub open spec fn hits_after(lasers: Seq<Body>, enemies: Seq<Body>, n: nat) -> Seq<Hit>
    decreases n,
{
    if n == 0 {
        Seq::empty()
    } else {
        let earlier = hits_after(lasers, enemies, (n - 1) as nat);
        let laser = lasers[n - 1];
        if resolved(earlier).contains(laser.entity) {
            earlier
        } else {
            match first_target(laser, enemies, resolved(earlier)) {
                Some(j) => earlier.push(
                    Hit {
                        laser: laser.entity,
                        enemy: enemies[j].entity,
                        explosion: ExplosionToSpawn(enemies[j].translation),
                    },
                ),
                None => earlier,
            }
        }
    }
}

/// The hits of one pass of the player's lasers over the enemies.
pub open spec fn laser_hits(lasers: Seq<Body>, enemies: Seq<Body>) -> Seq<Hit> {
    hits_after(lasers, enemies, lasers.len())
}

/// The first target is the only one that is first.
pub proof fn lemma_first_target_is(laser: Body, enemies: Seq<Body>, gone: Set<u64>, j: int)
    requires
        is_first_target(laser, enemies, gone, j),
    ensures
        first_target(laser, enemies, gone) == Some(j),
{
    let chosen = choose|j: int| is_first_target(laser, enemies, gone, j);
    assert(is_first_target(laser, enemies, gone, chosen));
    if chosen < j {
        assert(!is_target(laser, enemies, gone, chosen));
    }
    if j < chosen {
        assert(!is_target(laser, enemies, gone, j));
    }
}

/// Where no enemy in the list can be hit, there is no first target.
pub proof fn lemma_no_target(laser: Body, enemies: Seq<Body>, gone: Set<u64>)
    requires
        forall|j: int| 0 <= j < enemies.len() ==> !is_target(laser, enemies, gone, j),
    ensures
        first_target(laser, enemies, gone) is None,
{
}

/// A further hit destroys its laser and its enemy, and nothing else.
pub proof fn lemma_resolved_push(hits: Seq<Hit>, hit: Hit)
    ensures
        resolved(hits.push(hit)) == resolved(hits).insert(hit.enemy).insert(hit.laser),
{
    let longer = hits.push(hit);
    assert forall|entity: u64| resolved(longer).contains(entity) implies resolved(hits).insert(
        hit.enemy,
    ).insert(hit.laser).contains(entity) by {
        let k = choose|k: int| 0 <= k < longer.len() && (#[trigger] longer[k]).involves(entity);
        if k < hits.len() {
            assert(hits[k].involves(entity));
        }
    }
    assert forall|entity: u64|
        resolved(hits).insert(hit.enemy).insert(hit.laser).contains(entity) implies resolved(
        longer,
    ).contains(entity) by {
        if resolved(hits).contains(entity) {
            let k = choose|k: int| 0 <= k < hits.len() && (#[trigger] hits[k]).involves(entity);
            assert(longer[k].involves(entity));
        } else {
            assert(longer[hits.len() as int].involves(entity));
        }
    }
    assert(resolved(longer) =~= resolved(hits).insert(hit.enemy).insert(hit.laser));
}

/// Each laser adds at most one hit, and takes none away.
pub proof fn lemma_hits_grow(lasers: Seq<Body>, enemies: Seq<Body>, m: nat, n: nat)
    requires
        m <= n,
    ensures
        hits_after(lasers, enemies, m).len() <= hits_after(lasers, enemies, n).len() <= hits_after(
            lasers,
            enemies,
            m,
        ).len() + (n - m),
        hits_after(lasers, enemies, m) == hits_after(lasers, enemies, n).take(
            hits_after(lasers, enemies, m).len() as int,
        ),
    decreases n,
{
    if m < n {
        lemma_hits_grow(lasers, enemies, m, (n - 1) as nat);
        let short = hits_after(lasers, enemies, m);
        let earlier = hits_after(lasers, enemies, (n - 1) as nat);
        let later = hits_after(lasers, enemies, n);
        assert(earlier == later.take(earlier.len() as int));
        assert(short == later.take(short.len() as int));
    } else {
        let short = hits_after(lasers, enemies, m);
        assert(short == short.take(short.len() as int));
    }
}

/// What a hit records is true: its laser is one of the lasers, its enemy
/// is one of the enemies, their boxes overlap, and the explosion is asked
/// for where the enemy stands.
pub proof fn lemma_hits_are_overlaps(lasers: Seq<Body>, enemies: Seq<Body>, k: int)
    requires
        0 <= k < laser_hits(lasers, enemies).len(),
    ensures
        exists|i: int, j: int|
            {
                &&& 0 <= i < lasers.len()
                &&& 0 <= j < enemies.len()
                &&& overlaps(#[trigger] lasers[i], #[trigger] enemies[j])
                &&& laser_hits(lasers, enemies)[k] == (Hit {
                    laser: lasers[i].entity,
                    enemy: enemies[j].entity,
                    explosion: ExplosionToSpawn(enemies[j].translation),
                })
            },
{
    lemma_hit_is_overlap(lasers, enemies, lasers.len(), k);
}

proof fn lemma_hit_is_overlap(lasers: Seq<Body>, enemies: Seq<Body>, n: nat, k: int)
    requires
        n <= lasers.len(),
        0 <= k < hits_after(lasers, enemies, n).len(),
    ensures
        exists|i: int, j: int|
            {
                &&& 0 <= i < n
                &&& 0 <= j < enemies.len()
                &&& overlaps(#[trigger] lasers[i], #[trigger] enemies[j])
                &&& hits_after(lasers, enemies, n)[k] == (Hit {
                    laser: lasers[i].entity,
                    enemy: enemies[j].entity,
                    explosion: ExplosionToSpawn(enemies[j].translation),
                })
            },
    decreases n,
{
    let earlier = hits_after(lasers, enemies, (n - 1) as nat);
    if k < earlier.len() {
        lemma_hit_is_overlap(lasers, enemies, (n - 1) as nat, k);
        let (i, j) = choose|i: int, j: int|
            {
                &&& 0 <= i < n - 1
                &&& 0 <= j < enemies.len()
                &&& overlaps(#[trigger] lasers[i], #[trigger] enemies[j])
                &&& earlier[k] == (Hit {
                    laser: lasers[i].entity,
                    enemy: enemies[j].entity,
                    explosion: ExplosionToSpawn(enemies[j].translation),
                })
            };
        assert(overlaps(lasers[i], enemies[j]));
    } else {
        let laser = lasers[n - 1];
        let j = first_target(laser, enemies, resolved(earlier)).unwrap();
        assert(is_first_target(laser, enemies, resolved(earlier), j));
        assert(overlaps(lasers[n - 1], enemies[j]));
    }
}

/// No entity is destroyed twice: an entity that one hit names is named by
/// no other hit of the pass.
pub proof fn lemma_no_entity_hit_twice(lasers: Seq<Body>, enemies: Seq<Body>, a: int, b: int)
    requires
        0 <= a < laser_hits(lasers, enemies).len(),
        0 <= b < laser_hits(lasers, enemies).len(),
        a != b,
    ensures
        !laser_hits(lasers, enemies)[a].involves(laser_hits(lasers, enemies)[b].laser),
        !laser_hits(lasers, enemies)[a].involves(laser_hits(lasers, enemies)[b].enemy),
{
    if a < b {
        lemma_later_hit_is_new(lasers, enemies, lasers.len(), a, b);
    } else {
        lemma_later_hit_is_new(lasers, enemies, lasers.len(), b, a);
    }
}

proof fn lemma_later_hit_is_new(lasers: Seq<Body>, enemies: Seq<Body>, n: nat, a: int, b: int)
    requires
        0 <= a < b < hits_after(lasers, enemies, n).len(),
    ensures
        !hits_after(lasers, enemies, n)[a].involves(hits_after(lasers, enemies, n)[b].laser),
        !hits_after(lasers, enemies, n)[a].involves(hits_after(lasers, enemies, n)[b].enemy),
        !hits_after(lasers, enemies, n)[b].involves(hits_after(lasers, enemies, n)[a].laser),
        !hits_after(lasers, enemies, n)[b].involves(hits_after(lasers, enemies, n)[a].enemy),
    decreases n,
{
    let earlier = hits_after(lasers, enemies, (n - 1) as nat);
    if b < earlier.len() {
        lemma_later_hit_is_new(lasers, enemies, (n - 1) as nat, a, b);
    } else {
        let laser = lasers[n - 1];
        let j = first_target(laser, enemies, resolved(earlier)).unwrap();
        assert(is_first_target(laser, enemies, resolved(earlier), j));
        let first = earlier[a];
        if first.involves(laser.entity) {
            assert(resolved(earlier).contains(laser.entity));
        }
        if first.involves(enemies[j].entity) {
            assert(resolved(earlier).contains(enemies[j].entity));
        }
    }
}

/// The pass leaves nothing undone: of a laser and an enemy whose boxes
/// overlap, at least one has been destroyed when the pass ends.
pub proof fn lemma_no_overlap_survives(lasers: Seq<Body>, enemies: Seq<Body>, i: int, j: int)
    requires
        0 <= i < lasers.len(),
        0 <= j < enemies.len(),
        overlaps(lasers[i], enemies[j]),
    ensures
        resolved(laser_hits(lasers, enemies)).contains(lasers[i].entity) || resolved(
            laser_hits(lasers, enemies),
        ).contains(enemies[j].entity),
{
    let turn = hits_after(lasers, enemies, (i + 1) as nat);
    let before = hits_after(lasers, enemies, i as nat);
    let laser = lasers[i];
    lemma_hits_grow(lasers, enemies, (i + 1) as nat, lasers.len());
    lemma_hits_grow(lasers, enemies, i as nat, (i + 1) as nat);
    lemma_resolved_grows(before, turn);
    lemma_resolved_grows(turn, laser_hits(lasers, enemies));
    if !resolved(before).contains(laser.entity) {
        match first_target(laser, enemies, resolved(before)) {
            Some(t) => {
                assert(turn.last().involves(laser.entity));
            },
            None => {
                if !resolved(before).contains(enemies[j].entity) {
                    lemma_target_has_first(laser, enemies, resolved(before), j);
                }
            },
        }
    }
}

/// Where some enemy can be hit, one of them is the first.
proof fn lemma_target_has_first(laser: Body, enemies: Seq<Body>, gone: Set<u64>, j: int)
    requires
        is_target(laser, enemies, gone, j),
    ensures
        exists|t: int| is_first_target(laser, enemies, gone, t),
    decreases j,
{
    if exists|k: int| 0 <= k < j && is_target(laser, enemies, gone, k) {
        let k = choose|k: int| 0 <= k < j && is_target(laser, enemies, gone, k);
        lemma_target_has_first(laser, enemies, gone, k);
    } else {
        assert(is_first_target(laser, enemies, gone, j));
    }
}

/// What the hits so far have destroyed stays destroyed.
proof fn lemma_resolved_grows(fewer: Seq<Hit>, more: Seq<Hit>)
    requires
        fewer.len() <= more.len(),
        fewer == more.take(fewer.len() as int),
    ensures
        resolved(fewer).subset_of(resolved(more)),
{
    assert forall|entity: u64| resolved(fewer).contains(entity) implies resolved(more).contains(
        entity,
    ) by {
        let k = choose|k: int| 0 <= k < fewer.len() && (#[trigger] fewer[k]).involves(entity);
        assert(more[k].involves(entity));
    }
}

/// A pass has no more hits than there are lasers, and no more than there
/// are enemies. A count of enemies that covers the listed enemies
/// therefore covers the hits.
pub proof fn lemma_hits_bounded(lasers: Seq<Body>, enemies: Seq<Body>)
    ensures
        laser_hits(lasers, enemies).len() <= lasers.len(),
        laser_hits(lasers, enemies).len() <= enemies.len(),
{
    lemma_hits_grow(lasers, enemies, 0, lasers.len());

    let hits = laser_hits(lasers, enemies);
    let struck = hits.map_values(|hit: Hit| hit.enemy);
    let listed = enemies.map_values(|enemy: Body| enemy.entity);
    assert forall|a: int, b: int| 0 <= a < struck.len() && 0 <= b < struck.len() && a != b implies struck[a]
        != struck[b] by {
        lemma_no_entity_hit_twice(lasers, enemies, a, b);
    }
    assert forall|entity: u64| struck.to_set().contains(entity) implies listed.to_set().contains(
        entity,
    ) by {
        let k = choose|k: int| 0 <= k < struck.len() && struck[k] == entity;
        lemma_hits_are_overlaps(lasers, enemies, k);
        let (i, j) = choose|i: int, j: int|
            {
                &&& 0 <= i < lasers.len()
                &&& 0 <= j < enemies.len()
                &&& overlaps(#[trigger] lasers[i], #[trigger] enemies[j])
                &&& hits[k] == (Hit {
                    laser: lasers[i].entity,
                    enemy: enemies[j].entity,
                    explosion: ExplosionToSpawn(enemies[j].translation),
                })
            };
        assert(listed[j] == entity);
    }
    struck.unique_seq_to_set();
    listed.lemma_cardinality_of_set();
    vstd::seq_lib::seq_to_set_is_finite(listed);
    vstd::set_lib::lemma_len_subset(struck.to_set(), listed.to_set());
}

/// Matches the player's lasers against the enemies. The lasers take their
/// turn in list order; each that is still there destroys the first enemy
/// that it overlaps and that is still there, and is destroyed with it. The
/// count of enemies goes down by one per hit.
pub fn player_laser_hit_enemy_system(
    enemy_count: &mut EnemyCount,
    lasers: &Vec<Body>,
    enemies: &Vec<Body>,
) -> (hits: Vec<Hit>)
    requires
        old(enemy_count).0 >= laser_hits(lasers@, enemies@).len(),
    ensures
        hits@ == laser_hits(lasers@, enemies@),
        final(enemy_count).0 == old(enemy_count).0 - hits@.len(),
{
    broadcast use vstd::std_specs::hash::group_hash_axioms;

    let mut hits: Vec<Hit> = Vec::new();
    let mut despawned_entities: HashSet<u64> = HashSet::new();
    assert(despawned_entities@ =~= resolved(hits@));

    let mut i: usize = 0;
    while i < lasers.len()
        invariant
            0 <= i <= lasers.len(),
            hits@ == hits_after(lasers@, enemies@, i as nat),
            despawned_entities@ == resolved(hits@),
            enemy_count.0 + hits@.len() == old(enemy_count).0,
            old(enemy_count).0 >= laser_hits(lasers@, enemies@).len(),
        decreases lasers.len() - i,
    {
        let laser = lasers[i];
        if !despawned_entities.contains(&laser.entity) {
            let ghost gone = despawned_entities@;
            let mut target: Option<usize> = None;
            let mut j: usize = 0;
            while j < enemies.len()
                invariant_except_break
                    target is None,
                invariant
                    0 <= j <= enemies.len(),
                    despawned_entities@ == gone,
                    forall|k: int| 0 <= k < j ==> !is_target(laser, enemies@, gone, k),
                ensures
                    target is None ==> j == enemies.len(),
                    target matches Some(t) ==> t == j && is_first_target(
                        laser,
                        enemies@,
                        gone,
                        j as int,
                    ),
                decreases enemies.len() - j,
            {
                let enemy = enemies[j];
                if !despawned_entities.contains(&enemy.entity) && collide(&laser, &enemy) {
                    target = Some(j);
                    break ;
                }
                j += 1;
            }
            match target {
                Some(t) => {
                    let enemy = enemies[t];
                    let hit = Hit {
                        laser: laser.entity,
                        enemy: enemy.entity,
                        explosion: ExplosionToSpawn(enemy.translation),
                    };
                    proof {
                        lemma_first_target_is(laser, enemies@, gone, t as int);
                        lemma_resolved_push(hits@, hit);
                        lemma_hits_grow(lasers@, enemies@, (i + 1) as nat, lasers@.len());
                    }
                    despawned_entities.insert(enemy.entity);
                    despawned_entities.insert(laser.entity);
                    enemy_count.0 -= 1;
                    hits.push(hit);
                },
                None => {
                    proof {
                        lemma_no_target(laser, enemies@, gone);
                    }
                },
            }
        }
        i += 1;
    }
    hits
}

} // verus!
