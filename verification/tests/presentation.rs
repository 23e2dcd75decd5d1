use hero::sprites::{
    create_bullet_sprite, create_enemy_big_sprite, create_enemy_medium_sprite,
    create_enemy_small_sprite, create_ship_sprite, ship_animation, SpriteSheet,
};
use hero::text::{best_score_text, loading_text, score_text};

fn rows(s: &SpriteSheet) -> Vec<(String, u32, u32, u32)> {
    s.animations.iter().map(|a| (a.name.clone(), a.row, a.frames, a.fps)).collect()
}

#[test]
fn loading_dots_cycle() {
    assert_eq!(loading_text(0), b"Loading resources ".to_vec());
    assert_eq!(loading_text(1), b"Loading resources .".to_vec());
    assert_eq!(loading_text(3), b"Loading resources ...".to_vec());
    assert_eq!(loading_text(4), b"Loading resources ".to_vec());
    assert_eq!(loading_text(7), b"Loading resources ...".to_vec());
}

#[test]
fn score_lines() {
    assert_eq!(score_text(0), b"score: 0".to_vec());
    assert_eq!(score_text(1520), b"score: 1520".to_vec());
    assert_eq!(best_score_text(42), b"best score: 42".to_vec());
}

#[test]
fn ship_sheet() {
    let s = create_ship_sprite();
    assert_eq!((s.tile_width, s.tile_height), (16, 24));
    assert_eq!(
        rows(&s),
        vec![
            ("idle".to_string(), 0, 2, 12),
            ("left".to_string(), 2, 2, 12),
            ("right".to_string(), 4, 2, 12)
        ]
    );
    assert!(s.playing);
    assert_eq!(s.start_animation, 0);
}

#[test]
fn bullet_sheet_shows_bolt() {
    let s = create_bullet_sprite();
    assert_eq!((s.tile_width, s.tile_height), (16, 16));
    assert_eq!(
        rows(&s),
        vec![("bullet".to_string(), 0, 2, 12), ("bolt".to_string(), 1, 2, 12)]
    );
    assert_eq!(s.start_animation, 1);
}

#[test]
fn enemy_sheets() {
    for (s, w, h) in [
        (create_enemy_small_sprite(), 17, 16),
        (create_enemy_medium_sprite(), 32, 16),
        (create_enemy_big_sprite(), 32, 32),
    ] {
        assert_eq!((s.tile_width, s.tile_height), (w, h));
        assert_eq!(rows(&s), vec![("enemy_small".to_string(), 0, 2, 12)]);
        assert!(s.playing);
        assert_eq!(s.start_animation, 0);
    }
}

#[test]
fn ship_turns_with_the_side_keys() {
    assert_eq!(ship_animation(false, false), 0);
    assert_eq!(ship_animation(false, true), 2);
    assert_eq!(ship_animation(true, false), 1);
    assert_eq!(ship_animation(true, true), 1);
    let sheet = create_ship_sprite();
    for l in [false, true] {
        for r in [false, true] {
            assert!(ship_animation(l, r) < sheet.animations.len());
        }
    }
}
