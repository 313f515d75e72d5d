//! Tests for the shape and fit checks a driver runs before rendering.

use termsprite::animation::Animation;
use termsprite::compose::check_sprite_fits;
use termsprite::frame::{frame_shape_ok, Frame};
use termsprite::sprite::{check_sprite, Sprite};

#[test]
fn frame_shape_ok_accepts_matching_grids_and_no_colors() {
    let pixels = vec![vec!['a', 'b'], vec!['c']];
    assert!(frame_shape_ok(&pixels, &None));
    assert!(frame_shape_ok(&pixels, &Some(vec![vec![1, 2], vec![3]])));
}

#[test]
fn frame_shape_ok_rejects_a_shorter_color_row() {
    let pixels = vec![vec!['a', 'b'], vec!['c', 'd']];
    assert!(!frame_shape_ok(&pixels, &Some(vec![vec![1, 2], vec![3]])));
    assert!(!frame_shape_ok(&pixels, &Some(vec![vec![1, 2]])));
}

#[test]
fn check_sprite_sees_a_defect_a_constructor_would_refuse() {
    // The fields are public, so a driver can build a sprite by hand;
    // check_sprite tells it whether a render pass would accept the result.
    let good = Sprite {
        name: "g".to_string(),
        pixels: vec![vec!['a']],
        animations: Some(vec![Animation {
            name: "walk".to_string(),
            frames: vec![Frame { pixels: vec![vec!['b']], colors: None }],
        }]),
        colors: None,
    };
    assert!(check_sprite(&good));

    let mut empty_animation = good.clone();
    empty_animation.animations = Some(vec![Animation {
        name: "walk".to_string(),
        frames: vec![],
    }]);
    assert!(!check_sprite(&empty_animation));

    let mut bad_colors = good.clone();
    bad_colors.colors = Some(vec![vec![1, 2]]);
    assert!(!check_sprite(&bad_colors));
}

#[test]
fn check_sprite_fits_measures_every_frame_against_the_screen() {
    let tall = Sprite::new("t".to_string(), vec![vec!['x']; 3], None, None).unwrap();
    assert!(check_sprite_fits(&tall, 80, 24));
    // Three rows starting anywhere below 65534 still fit; starting at the
    // very last coordinates they no longer do.
    assert!(check_sprite_fits(&tall, 65535, 65533));
    assert!(!check_sprite_fits(&tall, 65535, 65534));
}
