//! Tests for sprite loading from JSON source text.

use termsprite::errors::LoadError;
use termsprite::sprite::{load_sprite, Sprite};

fn simple_sprite_source() -> String {
    r#"{"name":"Simple sprite","pixels":[["╮","╭","┻","┻","╮","╭","┻","┻","╮","╭","▕","╮","╲"," "," "],["▕","╯","┃","╭","╮","┃","┃","╭","╮","┃","╰","▕","╯","╭","▏"],["▕","╭","┻","┻","┻","┛","┗","┻","┻","┛"," ","╰","▏"," "," "],["▕","╰","━","━","━","┓","┈","┈","┈","╭","╮","▕","╭","╮","▏"],["▕","╭","╮","╰","┳","┳","┳","┳","╯","╰","╯","▕","╰","╯","▏"],["▕","╰","╯","┈","┗","┛","┗","┛","┈","╭","╮","▕","╮","┈","▏"]],"colors":null,"animations":null}"#.to_string()
}

#[test]
fn load_sprite_should_create_sprite_struct() {
    let sprite = load_sprite(&simple_sprite_source()).unwrap();
    assert_eq!(sprite.name, "Simple sprite");
    assert_eq!(sprite.pixels, vec![
        vec!['╮', '╭', '┻', '┻', '╮', '╭', '┻', '┻', '╮', '╭', '▕', '╮', '╲', ' ', ' '],
        vec!['▕', '╯', '┃', '╭', '╮', '┃', '┃', '╭', '╮', '┃', '╰', '▕', '╯', '╭', '▏'],
        vec!['▕', '╭', '┻', '┻', '┻', '┛', '┗', '┻', '┻', '┛', ' ', '╰', '▏', ' ', ' '],
        vec!['▕', '╰', '━', '━', '━', '┓', '┈', '┈', '┈', '╭', '╮', '▕', '╭', '╮', '▏'],
        vec!['▕', '╭', '╮', '╰', '┳', '┳', '┳', '┳', '╯', '╰', '╯', '▕', '╰', '╯', '▏'],
        vec!['▕', '╰', '╯', '┈', '┗', '┛', '┗', '┛', '┈', '╭', '╮', '▕', '╮', '┈', '▏']
    ]);
}

#[test]
fn load_sprite_rejects_text_that_is_not_json() {
    assert_eq!(load_sprite("this is not json"), Err(LoadError::Malformed));
}

#[test]
fn load_sprite_rejects_a_missing_name() {
    assert_eq!(
        load_sprite(r#"{"pixels":[["a"]]}"#),
        Err(LoadError::BadStructure)
    );
}

#[test]
fn load_sprite_rejects_a_wide_pixel_cell() {
    assert_eq!(
        load_sprite(r#"{"name":"s","pixels":[["ab"]]}"#),
        Err(LoadError::BadStructure)
    );
}

#[test]
fn load_sprite_rejects_a_color_grid_of_another_shape() {
    assert_eq!(
        load_sprite(r#"{"name":"s","pixels":[["a","b"],["c","d"]],"colors":[[1,2],[3]]}"#),
        Err(LoadError::ShapeMismatch)
    );
}

#[test]
fn load_sprite_rejects_an_animation_without_frames() {
    assert_eq!(
        load_sprite(
            r#"{"name":"s","pixels":[["a"]],"animations":[{"name":"walk","frames":[]}]}"#
        ),
        Err(LoadError::EmptyAnimation)
    );
}

#[test]
fn load_sprite_rejects_a_color_value_above_the_palette() {
    assert_eq!(
        load_sprite(r#"{"name":"s","pixels":[["a"]],"colors":[[256]]}"#),
        Err(LoadError::BadStructure)
    );
}

#[test]
fn load_sprite_reads_colors_and_animations() {
    let source = r#"{
        "name": "walker",
        "pixels": [["x","y"],["z","w"]],
        "colors": [[1,2],[3,4]],
        "animations": [
            {"name":"walk","frames":[
                {"pixels":[["a"]],"colors":[[9]]},
                {"pixels":[["b"]],"colors":null}
            ]}
        ]
    }"#;
    let sprite = load_sprite(source).unwrap();
    assert_eq!(sprite.name, "walker");
    assert_eq!(sprite.pixels, vec![vec!['x', 'y'], vec!['z', 'w']]);
    assert_eq!(sprite.colors, Some(vec![vec![1, 2], vec![3, 4]]));
    let anims = sprite.animations.as_ref().unwrap();
    assert_eq!(anims.len(), 1);
    assert_eq!(anims[0].name, "walk");
    assert_eq!(anims[0].frames.len(), 2);
    assert_eq!(anims[0].frames[0].pixels, vec![vec!['a']]);
    assert_eq!(anims[0].frames[0].colors, Some(vec![vec![9]]));
    assert_eq!(anims[0].frames[1].pixels, vec![vec!['b']]);
    assert_eq!(anims[0].frames[1].colors, None);
}

#[test]
fn sprite_new_keeps_the_grids_exactly() {
    let pixels = vec![vec!['a', 'b'], vec!['c']];
    let sprite = Sprite::new("s".to_string(), pixels.clone(), None, None).unwrap();
    assert_eq!(sprite.pixels, pixels);
    assert_eq!(sprite.name, "s");
    assert_eq!(sprite.colors, None);
    assert!(sprite.animations.is_none());
}
