//! The sprite sheets of the game, as plain data, and the choice of the
//! ship's animation.
//!
//! A sheet is cut into tiles of one size; each animation runs along one row
//! of tiles for a number of frames at a number of frames per second.
use vstd::prelude::*;

verus! {

/// One animation of a sheet.
pub struct AnimationSpec {
    pub name: String,
    /// The row of tiles it runs along.
    pub row: u32,
    /// The number of frames, one tile each.
    pub frames: u32,
    /// Frames per second.
    pub fps: u32,
}

/// A sprite sheet and how it is played.
pub struct SpriteSheet {
    pub tile_width: u32,
    pub tile_height: u32,
    pub animations: Vec<AnimationSpec>,
    /// It advances frames on its own.
    pub playing: bool,
    /// The animation it shows first.
    pub start_animation: usize,
}

/// The ship's animation while no side key is held.
pub const SHIP_IDLE: usize = 0;

/// The ship's animation while it turns left.
pub const SHIP_LEFT: usize = 1;

/// The ship's animation while it turns right.
pub const SHIP_RIGHT: usize = 2;

/// The bullet sheet's "bolt" animation, the one bullets show.
pub const BULLET_BOLT: usize = 1;

/// `a` is the animation `name` on row `row`, with `frames` frames at `fps`.
pub open spec fn is_animation(a: AnimationSpec, name: Seq<char>, row: u32, frames: u32, fps: u32) -> bool {
    &&& a.name@ == name
    &&& a.row == row
    &&& a.frames == frames
    &&& a.fps == fps
}

/// Animation `i` exists on the sheet and has frames to show.
pub open spec fn playable(s: SpriteSheet, i: int) -> bool {
    0 <= i < s.animations@.len() && s.animations@[i].frames > 0
}

/// Every animation of the sheet has frames and a positive rate, and the
/// sheet starts on one of them.
pub open spec fn sheet_ok(s: SpriteSheet) -> bool {
    &&& forall|i: int|
        0 <= i < s.animations@.len() ==> (#[trigger] s.animations@[i]).frames > 0
            && s.animations@[i].fps > 0
    &&& playable(s, s.start_animation as int)
}

/// The ship's sheet: tiles of 16 by 24; "idle", "left" and "right" on rows
/// 0, 2 and 4, two frames each at 12 per second.
pub open spec fn is_ship_sheet(s: SpriteSheet) -> bool {
    &&& s.tile_width == 16
    &&& s.tile_height == 24
    &&& s.animations@.len() == 3
    &&& is_animation(s.animations@[0], "idle"@, 0, 2, 12)
    &&& is_animation(s.animations@[1], "left"@, 2, 2, 12)
    &&& is_animation(s.animations@[2], "right"@, 4, 2, 12)
    &&& s.playing
    &&& s.start_animation == SHIP_IDLE
}

/// The bullet's sheet: tiles of 16 by 16; "bullet" and "bolt" on rows 0
/// and 1, two frames each at 12 per second; it shows "bolt".
pub open spec fn is_bullet_sheet(s: SpriteSheet) -> bool {
    &&& s.tile_width == 16
    &&& s.tile_height == 16
    &&& s.animations@.len() == 2
    &&& is_animation(s.animations@[0], "bullet"@, 0, 2, 12)
    &&& is_animation(s.animations@[1], "bolt"@, 1, 2, 12)
    &&& s.playing
    &&& s.start_animation == BULLET_BOLT
}

/// An enemy's sheet: tiles of the given size; one animation "enemy_small"
/// on row 0, two frames at 12 per second.
pub open spec fn is_enemy_sheet(s: SpriteSheet, width: u32, height: u32) -> bool {
    &&& s.tile_width == width
    &&& s.tile_height == height
    &&& s.animations@.len() == 1
    &&& is_animation(s.animations@[0], "enemy_small"@, 0, 2, 12)
    &&& s.playing
    &&& s.start_animation == 0
}

/// The ship's animation for the side keys held: left wins over right.
pub open spec fn ship_animation_choice(left: bool, right: bool) -> usize {
    if left {
        SHIP_LEFT
    } else if right {
        SHIP_RIGHT
    } else {
        SHIP_IDLE
    }
}

fn animation(name: &str, row: u32, frames: u32, fps: u32) -> (a: AnimationSpec)
    ensures
        is_animation(a, name@, row, frames, fps),
{
    AnimationSpec { name: name.to_owned(), row, frames, fps }
}

fn enemy_sheet(width: u32, height: u32) -> (s: SpriteSheet)
    ensures
        is_enemy_sheet(s, width, height),
        sheet_ok(s),
{
    let mut animations: Vec<AnimationSpec> = Vec::new();
    animations.push(animation("enemy_small", 0, 2, 12));
    SpriteSheet { tile_width: width, tile_height: height, animations, playing: true, start_animation: 0 }
}

/// The ship's sprite sheet.
pub fn create_ship_sprite() -> (s: SpriteSheet)
    ensures
        is_ship_sheet(s),
        sheet_ok(s),
{
    let mut animations: Vec<AnimationSpec> = Vec::new();
    animations.push(animation("idle", 0, 2, 12));
    animations.push(animation("left", 2, 2, 12));
    animations.push(animation("right", 4, 2, 12));
    SpriteSheet { tile_width: 16, tile_height: 24, animations, playing: true, start_animation: SHIP_IDLE }
}

/// The bullet's sprite sheet, set to its "bolt" animation.
pub fn create_bullet_sprite() -> (s: SpriteSheet)
    ensures
        is_bullet_sheet(s),
        sheet_ok(s),
{
    let mut animations: Vec<AnimationSpec> = Vec::new();
    animations.push(animation("bullet", 0, 2, 12));
    animations.push(animation("bolt", 1, 2, 12));
    let mut s = SpriteSheet { tile_width: 16, tile_height: 16, animations, playing: true, start_animation: 0 };
    s.start_animation = BULLET_BOLT;
    s
}

/// The small enemy's sprite sheet: tiles of 17 by 16.
pub fn create_enemy_small_sprite() -> (s: SpriteSheet)
    ensures
        is_enemy_sheet(s, 17, 16),
        sheet_ok(s),
{
    enemy_sheet(17, 16)
}

/// The medium enemy's sprite sheet: tiles of 32 by 16.
pub fn create_enemy_medium_sprite() -> (s: SpriteSheet)
    ensures
        is_enemy_sheet(s, 32, 16),
        sheet_ok(s),
{
    enemy_sheet(32, 16)
}

/// The big enemy's sprite sheet: tiles of 32 by 32.
pub fn create_enemy_big_sprite() -> (s: SpriteSheet)
    ensures
        is_enemy_sheet(s, 32, 32),
        sheet_ok(s),
{
    enemy_sheet(32, 32)
}

/// The ship's animation for the side keys held in a frame: idle, then
/// "right" if Right is held, then "left" if Left is held.
pub fn ship_animation(left: bool, right: bool) -> (i: usize)
    ensures
        i == ship_animation_choice(left, right),
{
    let mut i = SHIP_IDLE;
    if right {
        i = SHIP_RIGHT;
    }
    if left {
        i = SHIP_LEFT;
    }
    i
}

/// Holding Left always shows "left", holding Right alone shows "right",
/// and holding neither shows "idle".
pub proof fn lemma_ship_animation_keys(right: bool)
    ensures
        ship_animation_choice(true, right) == 1,
        ship_animation_choice(false, true) == 2,
        ship_animation_choice(false, false) == 0,
{
}

/// Whatever side keys are held, the animation the ship is switched to
/// exists on the ship's sheet and has frames to show.
pub proof fn lemma_ship_animation_playable(s: SpriteSheet, left: bool, right: bool)
    requires
        is_ship_sheet(s),
    ensures
        playable(s, ship_animation_choice(left, right) as int),
{
}

} // verus!
