use rust_invaders::explosion::{
    explosion_animation_system, explosion_to_spawn_system, Explosion, ExplosionTimer,
    ExplosionToSpawn, EXPLOSION_FRAME_MICROS, EXPLOSION_LEN,
};
use rust_invaders::geometry::Point;

fn at(x: i32, y: i32) -> ExplosionToSpawn {
    ExplosionToSpawn(Point { x, y })
}

#[test]
fn explosion_constants_have_their_values() {
    assert_eq!(EXPLOSION_LEN, 16);
    assert_eq!(EXPLOSION_FRAME_MICROS, 50_000);
}

#[test]
fn a_fresh_timer_has_not_run() {
    assert_eq!(ExplosionTimer::default(), ExplosionTimer { elapsed: 0 });
}

#[test]
fn a_short_tick_adds_to_the_time_run() {
    let mut timer = ExplosionTimer::default();
    assert!(!timer.tick(20_000));
    assert_eq!(timer, ExplosionTimer { elapsed: 20_000 });
    assert!(!timer.tick(29_999));
    assert_eq!(timer, ExplosionTimer { elapsed: 49_999 });
}

#[test]
fn a_tick_that_reaches_the_interval_completes() {
    let mut timer = ExplosionTimer { elapsed: 20_000 };
    assert!(timer.tick(30_000));
    assert_eq!(timer, ExplosionTimer { elapsed: 0 });
    let mut timer = ExplosionTimer { elapsed: 20_000 };
    assert!(timer.tick(40_000));
    assert_eq!(timer, ExplosionTimer { elapsed: 10_000 });
}

#[test]
fn a_long_tick_completes_once_and_keeps_the_rest() {
    let mut timer = ExplosionTimer { elapsed: 1 };
    assert!(timer.tick(175_000));
    assert_eq!(timer, ExplosionTimer { elapsed: 25_001 });
}

#[test]
fn a_tick_of_nothing_changes_nothing() {
    let mut timer = ExplosionTimer { elapsed: 123 };
    assert!(!timer.tick(0));
    assert_eq!(timer, ExplosionTimer { elapsed: 123 });
}

#[test]
fn the_longest_tick_is_taken() {
    let mut timer = ExplosionTimer { elapsed: u32::MAX };
    assert!(timer.tick(u32::MAX));
    assert_eq!(timer, ExplosionTimer { elapsed: 34_590 });
}

#[test]
fn a_request_starts_an_explosion_on_its_first_frame() {
    assert_eq!(
        Explosion::spawn(at(3, -4)),
        Explosion { translation: Point { x: 3, y: -4 }, index: 0, timer: ExplosionTimer { elapsed: 0 } }
    );
}

#[test]
fn requests_become_explosions_in_order() {
    let explosions = explosion_to_spawn_system(vec![at(1, 2), at(3, 4), at(1, 2)]);
    assert_eq!(
        explosions,
        vec![Explosion::spawn(at(1, 2)), Explosion::spawn(at(3, 4)), Explosion::spawn(at(1, 2))]
    );
    assert!(explosion_to_spawn_system(Vec::new()).is_empty());
}

#[test]
fn a_step_without_completion_keeps_the_frame() {
    let explosion = Explosion::spawn(at(0, 0));
    assert_eq!(explosion.advance(false), Some(explosion));
    let last = Explosion { index: 15, ..explosion };
    assert_eq!(last.advance(false), Some(last));
}

#[test]
fn an_explosion_ends_on_the_completion_after_its_last_frame() {
    let mut explosion = Explosion::spawn(at(7, 7));
    for frame in 1..EXPLOSION_LEN {
        explosion = explosion.advance(true).unwrap();
        assert_eq!(explosion.index, frame);
        assert_eq!(explosion.translation, Point { x: 7, y: 7 });
    }
    assert_eq!(explosion.index, 15);
    assert_eq!(explosion.advance(true), None);
}

#[test]
fn an_explosion_past_its_frames_ends_at_once() {
    let stale = Explosion { index: usize::MAX, ..Explosion::spawn(at(0, 0)) };
    assert_eq!(stale.advance(true), None);
    let late = Explosion { index: 16, ..Explosion::spawn(at(0, 0)) };
    assert_eq!(late.advance(true), None);
}

#[test]
fn animate_follows_the_timer() {
    let explosion = Explosion::spawn(at(0, 0));
    let waiting = explosion.animate(49_999).unwrap();
    assert_eq!(waiting, Explosion { timer: ExplosionTimer { elapsed: 49_999 }, ..explosion });
    let next = waiting.animate(2).unwrap();
    assert_eq!(next, Explosion { index: 1, timer: ExplosionTimer { elapsed: 1 }, ..explosion });
}

#[test]
fn an_explosion_plays_for_sixteen_intervals() {
    let mut explosion = Explosion::spawn(at(0, 0));
    let mut steps = 0;
    loop {
        steps += 1;
        match explosion.animate(10_000) {
            Some(next) => {
                assert_eq!(next.index, steps / 5);
                explosion = next;
            }
            None => break,
        }
    }
    assert_eq!(steps, 80);
}

#[test]
fn a_long_step_advances_one_frame() {
    let explosion = Explosion::spawn(at(0, 0));
    let next = explosion.animate(500_000).unwrap();
    assert_eq!(next.index, 1);
    assert_eq!(next.timer, ExplosionTimer { elapsed: 0 });
}

#[test]
fn the_system_drops_what_has_ended() {
    let fresh = Explosion::spawn(at(1, 1));
    let last = Explosion { index: 15, timer: ExplosionTimer { elapsed: 40_000 }, ..Explosion::spawn(at(2, 2)) };
    let late = Explosion { index: 15, timer: ExplosionTimer { elapsed: 0 }, ..Explosion::spawn(at(3, 3)) };
    let mid = Explosion { index: 7, timer: ExplosionTimer { elapsed: 45_000 }, ..Explosion::spawn(at(4, 4)) };
    let mut explosions = vec![fresh, last, late, mid];
    explosion_animation_system(&mut explosions, 10_000);
    assert_eq!(
        explosions,
        vec![
            Explosion { timer: ExplosionTimer { elapsed: 10_000 }, ..fresh },
            Explosion { timer: ExplosionTimer { elapsed: 10_000 }, ..late },
            Explosion { index: 8, timer: ExplosionTimer { elapsed: 5_000 }, ..mid },
        ]
    );
}

#[test]
fn the_system_takes_an_empty_list() {
    let mut explosions: Vec<Explosion> = Vec::new();
    explosion_animation_system(&mut explosions, 16_666);
    assert!(explosions.is_empty());
}
