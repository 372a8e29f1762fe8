use rust_invaders::geometry::{Point, WinSize, ONE};
use rust_invaders::movement::{
    axis_offset, movable_system, Mover, BASE_SPEED, DESPAWN_MARGIN, STEPS_PER_SECOND,
};

fn window() -> WinSize {
    WinSize { w: 598 * ONE, h: 676 * ONE }
}

fn still(entity: u64, x: i32, y: i32, auto_despawn: bool) -> Mover {
    Mover { entity, translation: Point { x, y }, velocity: Point { x: 0, y: 0 }, auto_despawn }
}

#[test]
fn movement_constants_have_their_values() {
    assert_eq!(STEPS_PER_SECOND, 60);
    assert_eq!(BASE_SPEED, 500_000);
    assert_eq!(DESPAWN_MARGIN, 200_000);
}

#[test]
fn a_step_at_unit_velocity_covers_a_sixtieth_of_the_base_speed() {
    let mut mover = Mover {
        entity: 1,
        translation: Point { x: 0, y: 0 },
        velocity: Point { x: 0, y: ONE },
        auto_despawn: true,
    };
    mover.advance();
    assert_eq!(mover.translation, Point { x: 0, y: 8_333 });
    mover.advance();
    assert_eq!(mover.translation, Point { x: 0, y: 16_666 });
}

#[test]
fn a_step_rounds_toward_zero_in_both_directions() {
    let mut mover = Mover {
        entity: 1,
        translation: Point { x: 10, y: -10 },
        velocity: Point { x: -ONE, y: 1 },
        auto_despawn: false,
    };
    mover.advance();
    assert_eq!(mover.translation, Point { x: 10 - 8_333, y: -10 + 8 });
    let mut slow = Mover {
        entity: 2,
        translation: Point { x: 0, y: 0 },
        velocity: Point { x: -1, y: 1 },
        auto_despawn: false,
    };
    slow.advance();
    assert_eq!(slow.translation, Point { x: -8, y: 8 });
}

#[test]
fn a_step_changes_the_position_only() {
    let mut mover = Mover {
        entity: 77,
        translation: Point { x: 1, y: 2 },
        velocity: Point { x: 3 * ONE, y: -6 * ONE },
        auto_despawn: true,
    };
    mover.advance();
    assert_eq!(
        mover,
        Mover {
            entity: 77,
            translation: Point { x: 25_001, y: -49_998 },
            velocity: Point { x: 3 * ONE, y: -6 * ONE },
            auto_despawn: true,
        }
    );
}

#[test]
fn an_entity_beyond_the_margin_is_despawned() {
    let win_size = window();
    let edge = win_size.w / 2 + DESPAWN_MARGIN;
    let mut movers = vec![still(1, edge + 1, 0, true)];
    assert_eq!(movable_system(&win_size, &mut movers), vec![1]);
}

#[test]
fn an_entity_within_the_margin_stays() {
    let win_size = window();
    let edge = win_size.w / 2 + DESPAWN_MARGIN;
    let mut movers = vec![still(1, edge - 1, 0, true), still(2, edge, 0, true)];
    assert_eq!(movable_system(&win_size, &mut movers), Vec::<u64>::new());
}

#[test]
fn each_of_the_four_sides_has_its_margin() {
    let win_size = window();
    let x_edge = win_size.w / 2 + DESPAWN_MARGIN;
    let y_edge = win_size.h / 2 + DESPAWN_MARGIN;
    let mut movers = vec![
        still(1, x_edge + 1, 0, true),
        still(2, -x_edge - 1, 0, true),
        still(3, 0, y_edge + 1, true),
        still(4, 0, -y_edge - 1, true),
        still(5, x_edge, y_edge, true),
        still(6, -x_edge, -y_edge, true),
    ];
    assert_eq!(movable_system(&win_size, &mut movers), vec![1, 2, 3, 4]);
}

#[test]
fn an_entity_that_is_not_marked_is_never_despawned() {
    let win_size = window();
    let mut movers = vec![still(1, 2_000_000, 2_000_000, false)];
    assert_eq!(movable_system(&win_size, &mut movers), Vec::<u64>::new());
    assert_eq!(movers[0].translation, Point { x: 2_000_000, y: 2_000_000 });
}

#[test]
fn the_margin_is_tested_after_the_move() {
    let win_size = window();
    let edge = win_size.h / 2 + DESPAWN_MARGIN;
    let rising = |entity: u64, y: i32| Mover {
        entity,
        translation: Point { x: 0, y },
        velocity: Point { x: 0, y: ONE },
        auto_despawn: true,
    };
    let mut movers = vec![rising(1, edge - 8_333), rising(2, edge - 8_332), rising(3, edge + 1)];
    assert_eq!(movable_system(&win_size, &mut movers), vec![2, 3]);
    assert_eq!(movers[0].translation.y, edge);
    assert_eq!(movers[1].translation.y, edge + 1);
    assert_eq!(movers[2].translation.y, edge + 8_334);
}

#[test]
fn an_empty_list_moves_nothing() {
    let mut movers: Vec<Mover> = Vec::new();
    assert_eq!(movable_system(&window(), &mut movers), Vec::<u64>::new());
    assert!(movers.is_empty());
}

#[test]
fn is_leaving_reads_the_mark_and_the_margin() {
    let win_size = window();
    let edge = win_size.w / 2 + DESPAWN_MARGIN;
    assert!(still(1, edge + 1, 0, true).is_leaving(&win_size));
    assert!(!still(1, edge + 1, 0, false).is_leaving(&win_size));
    assert!(!still(1, edge, 0, true).is_leaving(&win_size));
}

#[test]
fn can_advance_tells_whether_the_step_fits() {
    let mut mover = Mover {
        entity: 1,
        translation: Point { x: i32::MAX - 8_333, y: i32::MIN + 8_333 },
        velocity: Point { x: ONE, y: -ONE },
        auto_despawn: false,
    };
    assert!(mover.can_advance());
    mover.advance();
    assert_eq!(mover.translation, Point { x: i32::MAX, y: i32::MIN });
    assert!(!mover.can_advance());
    mover.velocity = Point { x: 0, y: -ONE };
    assert!(!mover.can_advance());
    mover.velocity = Point { x: -ONE, y: ONE };
    assert!(mover.can_advance());
}

#[test]
fn axis_offset_is_the_distance_of_one_step() {
    assert_eq!(axis_offset(0), 0);
    assert_eq!(axis_offset(ONE), 8_333);
    assert_eq!(axis_offset(-ONE), -8_333);
    assert_eq!(axis_offset(6), 50);
    assert_eq!(axis_offset(-7), -58);
    assert_eq!(axis_offset(i32::MAX), 17_895_697_058);
    assert_eq!(axis_offset(i32::MIN), -17_895_697_066);
}
