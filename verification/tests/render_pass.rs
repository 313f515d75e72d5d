//! Tests for projection, culling and whole render passes.

use termsprite::animation::Animation;
use termsprite::camera::project;
use termsprite::compose::DrawOp;
use termsprite::direction::Direction;
use termsprite::entity::Entity;
use termsprite::errors::RenderError;
use termsprite::frame::Frame;
use termsprite::position::Position;
use termsprite::render::{print_sprites, print_sprites_centered_on};
use termsprite::sprite::Sprite;

fn block_sprite(name: &str, rows: Vec<Vec<char>>) -> Sprite {
    Sprite::new(name.to_string(), rows, None, None).unwrap()
}

fn entity(name: &str, sprite: Sprite, x: u16, y: u16) -> Entity {
    Entity {
        name: name.to_string(),
        sprite,
        position: Position { x, y },
        direction: Direction::none(),
        speed: 0,
        animation_name: None,
        cursor: 0,
    }
}

fn frame_at(ch: char, cols: u16, rows: u16, x: u16, y: u16) -> Vec<DrawOp> {
    let mut ops = Vec::new();
    for r in 0..rows {
        for c in 0..cols {
            ops.push(DrawOp::MoveTo(x + c, y + r));
            ops.push(DrawOp::Print(ch));
        }
    }
    ops.push(DrawOp::ResetColor);
    ops
}

#[test]
fn projection_centers_the_focal_entity_on_itself() {
    let p = Position { x: 1234, y: 777 };
    assert_eq!(
        project(p, p, 80, 24),
        Some(Position { x: 40, y: 12 })
    );
}

#[test]
fn projection_offsets_other_entities_from_the_center() {
    let focal = Position { x: 40, y: 12 };
    assert_eq!(
        project(focal, Position { x: 60, y: 12 }, 80, 24),
        Some(Position { x: 60, y: 12 })
    );
    assert_eq!(
        project(focal, Position { x: 30, y: 2 }, 80, 24),
        Some(Position { x: 30, y: 2 })
    );
}

#[test]
fn projection_culls_what_falls_off_screen() {
    let focal = Position { x: 40, y: 12 };
    // Projected column 1000 lies at or beyond width 80.
    assert_eq!(project(focal, Position { x: 1000, y: 12 }, 80, 24), None);
    // A negative projected column is off screen as well, not a fault.
    assert_eq!(
        project(Position { x: 50, y: 12 }, Position { x: 0, y: 12 }, 80, 24),
        None
    );
}

#[test]
fn full_pass_draws_focal_centered_others_offset_and_culls_the_rest() {
    let mut focal = entity("hero", block_sprite("a", vec![vec!['A'; 3]; 2]), 40, 12);
    let mut others = vec![
        entity("near", block_sprite("b", vec![vec!['B']]), 60, 12),
        entity("far", block_sprite("c", vec![vec!['C']]), 1000, 12),
    ];
    let ops = print_sprites_centered_on(&mut focal, &mut others, 80, 24).unwrap();

    let mut expected = vec![DrawOp::ClearAll];
    expected.extend(frame_at('A', 3, 2, 40, 12));
    expected.extend(frame_at('B', 1, 1, 60, 12));
    // The culled entity contributes nothing at all.
    expected.push(DrawOp::MoveTo(80, 24));
    expected.push(DrawOp::Print(' '));
    assert_eq!(ops, expected);
}

#[test]
fn a_culled_entity_does_not_shift_what_others_get() {
    let focal = || entity("hero", block_sprite("a", vec![vec!['A']]), 40, 12);
    let near = || entity("near", block_sprite("b", vec![vec!['B']]), 45, 12);
    let far = || entity("far", block_sprite("c", vec![vec!['C']]), 1000, 12);

    let mut f1 = focal();
    let mut with_far = vec![near(), far()];
    let ops_with = print_sprites_centered_on(&mut f1, &mut with_far, 80, 24).unwrap();

    let mut f2 = focal();
    let mut without_far = vec![near()];
    let ops_without = print_sprites_centered_on(&mut f2, &mut without_far, 80, 24).unwrap();

    assert_eq!(ops_with, ops_without);
}

#[test]
fn a_missing_animation_name_refuses_the_pass() {
    let mut focal = entity("hero", block_sprite("a", vec![vec!['A']]), 40, 12);
    let mut bad = entity("bad", block_sprite("b", vec![vec!['B']]), 41, 12);
    bad.animation_name = Some("runs".to_string());
    let mut others = vec![bad.clone()];
    let r = print_sprites_centered_on(&mut focal, &mut others, 80, 24);
    assert_eq!(r, Err(RenderError::MissingAnimation));
    // A refused pass changes nothing.
    assert_eq!(others[0], bad);
    assert_eq!(focal.cursor, 0);
}

#[test]
fn a_culled_entity_with_a_missing_animation_is_not_an_error() {
    let mut focal = entity("hero", block_sprite("a", vec![vec!['A']]), 40, 12);
    let mut bad = entity("bad", block_sprite("b", vec![vec!['B']]), 1000, 12);
    bad.animation_name = Some("runs".to_string());
    let mut others = vec![bad];
    assert!(print_sprites_centered_on(&mut focal, &mut others, 80, 24).is_ok());
}

fn two_frame_sprite() -> Sprite {
    let walk = Animation {
        name: "walk".to_string(),
        frames: vec![
            Frame { pixels: vec![vec!['1']], colors: None },
            Frame { pixels: vec![vec!['2']], colors: None },
        ],
    };
    Sprite::new("w".to_string(), vec![vec!['0']], Some(vec![walk]), None).unwrap()
}

#[test]
fn an_animated_focal_entity_cycles_its_frames_across_passes() {
    let mut focal = entity("hero", two_frame_sprite(), 40, 12);
    focal.animation_name = Some("walk".to_string());
    let mut others: Vec<Entity> = Vec::new();

    let first = print_sprites_centered_on(&mut focal, &mut others, 80, 24).unwrap();
    assert!(first.contains(&DrawOp::Print('1')));
    assert_eq!(focal.cursor, 1);

    let second = print_sprites_centered_on(&mut focal, &mut others, 80, 24).unwrap();
    assert!(second.contains(&DrawOp::Print('2')));
    assert_eq!(focal.cursor, 0);

    let third = print_sprites_centered_on(&mut focal, &mut others, 80, 24).unwrap();
    assert_eq!(first, third);
}

#[test]
fn colors_are_set_per_cell_and_reset_after_the_frame() {
    let sprite = Sprite::new(
        "c".to_string(),
        vec![vec!['x', 'y']],
        None,
        Some(vec![vec![7, 9]]),
    )
    .unwrap();
    let mut focal = entity("hero", sprite, 40, 12);
    let mut others: Vec<Entity> = Vec::new();
    let ops = print_sprites_centered_on(&mut focal, &mut others, 80, 24).unwrap();
    let expected = vec![
        DrawOp::ClearAll,
        DrawOp::SetColor(7),
        DrawOp::MoveTo(40, 12),
        DrawOp::Print('x'),
        DrawOp::SetColor(9),
        DrawOp::MoveTo(41, 12),
        DrawOp::Print('y'),
        DrawOp::ResetColor,
        DrawOp::MoveTo(80, 24),
        DrawOp::Print(' '),
    ];
    assert_eq!(ops, expected);
}

#[test]
fn plain_pass_draws_every_entity_at_its_own_position() {
    let mut entities = vec![
        entity("a", block_sprite("a", vec![vec!['A']]), 2, 3),
        entity("b", block_sprite("b", vec![vec!['B']]), 10, 1),
    ];
    let ops = print_sprites(&mut entities).unwrap();
    let mut expected = vec![DrawOp::ClearAll];
    expected.extend(frame_at('A', 1, 1, 2, 3));
    expected.extend(frame_at('B', 1, 1, 10, 1));
    assert_eq!(ops, expected);
}

#[test]
fn a_focal_entity_with_a_missing_animation_refuses_the_pass() {
    let mut focal = entity("hero", block_sprite("a", vec![vec!['A']]), 40, 12);
    focal.animation_name = Some("absent".to_string());
    let mut others: Vec<Entity> = Vec::new();
    assert_eq!(
        print_sprites_centered_on(&mut focal, &mut others, 80, 24),
        Err(RenderError::MissingAnimation)
    );
    assert_eq!(focal.cursor, 0);
}

#[test]
fn a_refused_plain_pass_changes_no_entity() {
    let good = entity("good", block_sprite("a", vec![vec!['A']]), 1, 1);
    let mut bad = entity("bad", block_sprite("b", vec![vec!['B']]), 2, 2);
    bad.animation_name = Some("absent".to_string());
    let mut entities = vec![good.clone(), bad.clone()];
    assert_eq!(
        print_sprites(&mut entities),
        Err(RenderError::MissingAnimation)
    );
    assert_eq!(entities, vec![good, bad]);
}
