//! Tests for the animation cursor and for entity motion.

use termsprite::animation::resolve_frame_number;
use termsprite::direction::Direction;
use termsprite::entity::{move_entities, move_entity, Entity};
use termsprite::errors::RenderError;
use termsprite::position::Position;
use termsprite::sprite::Sprite;

fn plain_sprite() -> Sprite {
    Sprite::new("dot".to_string(), vec![vec!['*']], None, None).unwrap()
}

fn entity_at(x: u16, y: u16, direction: Direction, speed: u16) -> Entity {
    Entity {
        name: "e".to_string(),
        sprite: plain_sprite(),
        position: Position { x, y },
        direction,
        speed,
        animation_name: None,
        cursor: 0,
    }
}

#[test]
fn cursor_selects_k_mod_n_over_a_full_cycle() {
    let mut cursor: usize = 0;
    for k in 0..7usize {
        let shown = resolve_frame_number(&mut cursor, 3).unwrap();
        assert_eq!(shown, k % 3);
    }
}

#[test]
fn cursor_shows_frame_zero_first() {
    let mut cursor: usize = 0;
    assert_eq!(resolve_frame_number(&mut cursor, 5), Ok(0));
    assert_eq!(cursor, 1);
}

#[test]
fn cursor_wraps_to_zero_after_the_last_index() {
    let mut cursor: usize = 2;
    assert_eq!(resolve_frame_number(&mut cursor, 3), Ok(2));
    assert_eq!(cursor, 0);
}

#[test]
fn cursor_with_no_frames_is_a_consistency_error() {
    let mut cursor: usize = 0;
    assert_eq!(
        resolve_frame_number(&mut cursor, 0),
        Err(RenderError::EmptyAnimation)
    );
    assert_eq!(cursor, 0);
}

#[test]
fn cursor_with_a_single_frame_always_shows_it() {
    let mut cursor: usize = 0;
    for _ in 0..4 {
        assert_eq!(resolve_frame_number(&mut cursor, 1), Ok(0));
    }
}

#[test]
fn motion_moves_by_speed_in_each_flagged_direction() {
    let e = entity_at(
        10,
        10,
        Direction { up: true, down: false, left: false, right: true },
        2,
    );
    let moved = move_entity(e, 100, 100);
    assert_eq!(moved.position, Position { x: 12, y: 8 });
}

#[test]
fn motion_saturates_at_the_right_edge() {
    let e = entity_at(
        100,
        10,
        Direction { up: false, down: false, left: false, right: true },
        7,
    );
    let moved = move_entity(e, 100, 100);
    assert_eq!(moved.position, Position { x: 100, y: 10 });
}

#[test]
fn motion_saturates_at_the_left_edge() {
    let e = entity_at(
        0,
        10,
        Direction { up: false, down: false, left: true, right: false },
        3,
    );
    let moved = move_entity(e, 100, 100);
    assert_eq!(moved.position, Position { x: 0, y: 10 });
}

#[test]
fn motion_saturates_at_top_and_bottom() {
    let top = entity_at(
        5,
        0,
        Direction { up: true, down: false, left: false, right: false },
        9,
    );
    assert_eq!(move_entity(top, 50, 50).position, Position { x: 5, y: 0 });
    let bottom = entity_at(
        5,
        50,
        Direction { up: false, down: true, left: false, right: false },
        1,
    );
    assert_eq!(move_entity(bottom, 50, 50).position, Position { x: 5, y: 50 });
}

#[test]
fn motion_clamps_a_partial_step_at_the_edge() {
    let e = entity_at(
        98,
        10,
        Direction { up: false, down: false, left: false, right: true },
        5,
    );
    assert_eq!(move_entity(e, 100, 100).position, Position { x: 100, y: 10 });
}

#[test]
fn move_entities_moves_each_entity_independently() {
    let a = entity_at(
        0,
        0,
        Direction { up: false, down: true, left: false, right: true },
        1,
    );
    let b = entity_at(
        9,
        9,
        Direction { up: true, down: false, left: true, right: false },
        4,
    );
    let moved = move_entities(vec![a, b], 20, 20);
    assert_eq!(moved.len(), 2);
    assert_eq!(moved[0].position, Position { x: 1, y: 1 });
    assert_eq!(moved[1].position, Position { x: 5, y: 5 });
}

#[test]
fn opposite_flags_cancel_even_at_the_edge() {
    let e = entity_at(
        0,
        10,
        Direction { up: false, down: false, left: true, right: true },
        5,
    );
    assert_eq!(move_entity(e, 100, 100).position, Position { x: 0, y: 10 });
    let f = entity_at(
        100,
        10,
        Direction { up: false, down: false, left: true, right: true },
        7,
    );
    assert_eq!(move_entity(f, 100, 100).position, Position { x: 100, y: 10 });
}

#[test]
fn a_fresh_entity_starts_at_frame_zero() {
    let e = Entity::new(
        "e".to_string(),
        plain_sprite(),
        Position { x: 1, y: 2 },
        Direction::none(),
        3,
        None,
    );
    assert_eq!(e.cursor, 0);
    assert_eq!(e.position, Position { x: 1, y: 2 });
    assert_eq!(e.speed, 3);
}

#[test]
fn a_still_entity_stays_put() {
    let e = entity_at(7, 8, Direction::none(), 5);
    assert_eq!(move_entity(e, 20, 20).position, Position { x: 7, y: 8 });
}
