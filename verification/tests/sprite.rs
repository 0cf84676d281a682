use mansion::canvas::VirtualFrameBuffer;
use mansion::entity::Entity;
use mansion::math::vec2::Vec2;
use mansion::math::vec4::Color4;
use mansion::sprite::{DrawFramebuffer, Sprite};
use mansion::tiles::{Tile, TileSet};

const RED: (i32, i32, i32) = (200, 0, 0);
const BLUE: (i32, i32, i32) = (0, 0, 200);

fn solid(color: (i32, i32, i32)) -> Tile {
    Tile { pixels: [[Color4::new(color.0, color.1, color.2, 1); 16]; 16] }
}

fn clear_tile() -> Tile {
    Tile { pixels: [[Color4::new(255, 255, 255, 0); 16]; 16] }
}

/// Tile 0: red. Tile 1: blue. Tile 2: transparent. Tile 3: red with a
/// transparent left half.
fn atlas() -> TileSet {
    let mut half = solid(RED);
    for x in 0..8 {
        for y in 0..16 {
            half.pixels[x][y] = Color4::new(255, 255, 255, 0);
        }
    }
    TileSet { tiles: vec![solid(RED), solid(BLUE), clear_tile(), half], columns: 4 }
}

fn cell(tile_index: usize) -> Entity {
    Entity { tile_index, wall: false, door_colors: vec![] }
}

fn token(tile_index: usize, x: i32, y: i32) -> Sprite {
    let mut sprite = Sprite::new(vec![vec![cell(tile_index)]]);
    sprite.pos = Vec2::new(x, y);
    sprite
}

fn small_canvas() -> VirtualFrameBuffer {
    VirtualFrameBuffer { data: vec![vec![Color4::new(0, 0, 0, 255); 40]; 48] }
}

fn red() -> Color4 {
    Color4::new(200, 0, 0, 1)
}

fn blue() -> Color4 {
    Color4::new(0, 0, 200, 1)
}

fn black() -> Color4 {
    Color4::new(0, 0, 0, 255)
}

#[test]
fn new_sprite_stands_at_the_origin() {
    let sprite = Sprite::new(vec![vec![cell(0), cell(1)], vec![cell(2), cell(3)], vec![cell(0), cell(0)]]);
    assert_eq!(sprite.pos, Vec2::new(0, 0));
    assert_eq!(sprite.tiles_width(), 3);
    assert_eq!(sprite.tiles_height(), 2);
    assert_eq!(sprite.width(), 48);
    assert_eq!(sprite.height(), 32);
    assert_eq!(sprite.pos(), Vec2::new(0, 0));
}

#[test]
fn default_sprite_is_one_empty_cell() {
    let sprite = Sprite::default();
    assert_eq!(sprite.pos, Vec2::new(0, 0));
    assert_eq!(sprite.tiles_width(), 1);
    assert_eq!(sprite.tiles_height(), 1);
    assert_eq!(sprite.entities[0][0].tile_index, 0);
    assert!(!sprite.entities[0][0].wall);
    assert!(sprite.entities[0][0].door_colors.is_empty());
}

#[test]
fn sprite_without_columns_has_no_extent() {
    let sprite = Sprite::new(vec![]);
    assert_eq!(sprite.tiles_width(), 0);
    assert_eq!(sprite.tiles_height(), 0);
    assert_eq!(sprite.width(), 0);
    assert_eq!(sprite.height(), 0);
}

#[test]
fn pixel_is_taken_from_the_tile_of_its_cell() {
    let sprite = Sprite::new(vec![vec![cell(0), cell(1)], vec![cell(3), cell(2)]]);
    let tiles = atlas();
    assert_eq!(sprite.pixel(&tiles, 0, 0), red());
    assert_eq!(sprite.pixel(&tiles, 15, 15), red());
    assert_eq!(sprite.pixel(&tiles, 0, 16), blue());
    assert_eq!(sprite.pixel(&tiles, 15, 31), blue());
    assert_eq!(sprite.pixel(&tiles, 16, 0), Color4::new(255, 255, 255, 0));
    assert_eq!(sprite.pixel(&tiles, 24, 0), red());
    assert_eq!(sprite.pixel(&tiles, 16, 16), Color4::new(255, 255, 255, 0));
}

#[test]
fn draw_writes_opaque_pixels_at_the_position() {
    let mut vfb = small_canvas();
    token(0, 4, 6).draw(&atlas(), &mut vfb);
    for x in 0..48usize {
        for y in 0..40usize {
            let inside = (4..20).contains(&x) && (6..22).contains(&y);
            assert_eq!(vfb.data[x][y], if inside { red() } else { black() });
        }
    }
}

#[test]
fn draw_skips_transparent_pixels() {
    let mut vfb = small_canvas();
    token(3, 0, 0).draw(&atlas(), &mut vfb);
    for x in 0..48usize {
        for y in 0..40usize {
            let inside = (8..16).contains(&x) && y < 16;
            assert_eq!(vfb.data[x][y], if inside { red() } else { black() });
        }
    }
}

#[test]
fn draw_clips_at_the_edges_of_the_canvas() {
    let mut vfb = small_canvas();
    token(0, -10, -12).draw(&atlas(), &mut vfb);
    token(1, 40, 30).draw(&atlas(), &mut vfb);
    for x in 0..48usize {
        for y in 0..40usize {
            let expected = if x < 6 && y < 4 {
                red()
            } else if x >= 40 && y >= 30 {
                blue()
            } else {
                black()
            };
            assert_eq!(vfb.data[x][y], expected);
        }
    }
}

#[test]
fn draw_off_the_canvas_changes_nothing() {
    let mut vfb = small_canvas();
    let before = vfb.data.clone();
    token(0, -16, 0).draw(&atlas(), &mut vfb);
    token(0, 48, 0).draw(&atlas(), &mut vfb);
    token(0, 0, 40).draw(&atlas(), &mut vfb);
    token(0, i32::MIN, i32::MAX).draw(&atlas(), &mut vfb);
    token(0, i32::MAX, i32::MIN).draw(&atlas(), &mut vfb);
    assert_eq!(vfb.data, before);
}

#[test]
fn paint_is_draw() {
    let mut drawn = small_canvas();
    let mut painted = small_canvas();
    let sprite = token(3, 7, 9);
    sprite.draw(&atlas(), &mut drawn);
    sprite.paint(&atlas(), &mut painted);
    assert_eq!(drawn.data, painted.data);
}

#[test]
fn transparent_sprite_does_not_erase_what_was_drawn() {
    let mut vfb = small_canvas();
    token(0, 4, 6).draw(&atlas(), &mut vfb);
    let after_first = vfb.data.clone();
    token(2, 4, 6).draw(&atlas(), &mut vfb);
    assert_eq!(vfb.data, after_first);
    token(2, 0, 0).draw(&atlas(), &mut vfb);
    assert_eq!(vfb.data, after_first);
}

#[test]
fn order_does_not_matter_for_disjoint_sprites() {
    let a = token(0, 0, 0);
    let b = token(1, 16, 0);
    let c = token(3, 30, 20);
    let mut first = small_canvas();
    a.draw(&atlas(), &mut first);
    b.draw(&atlas(), &mut first);
    c.draw(&atlas(), &mut first);
    let mut second = small_canvas();
    second.set(1, 1, Color4::new(5, 5, 5, 5));
    second.clear(Color4::new(0, 0, 0, 255));
    c.draw(&atlas(), &mut second);
    b.draw(&atlas(), &mut second);
    a.draw(&atlas(), &mut second);
    assert_eq!(first.data, second.data);
    assert_eq!(first.data[15][0], red());
    assert_eq!(first.data[16][0], blue());
}

#[test]
fn later_sprite_covers_earlier_one() {
    let a = token(0, 0, 0);
    let b = token(1, 8, 8);
    let mut vfb = small_canvas();
    a.draw(&atlas(), &mut vfb);
    b.draw(&atlas(), &mut vfb);
    assert_eq!(vfb.data[7][7], red());
    assert_eq!(vfb.data[8][8], blue());
    assert_eq!(vfb.data[15][15], blue());
    assert_eq!(vfb.data[23][23], blue());
    let mut other = small_canvas();
    b.draw(&atlas(), &mut other);
    a.draw(&atlas(), &mut other);
    assert_eq!(other.data[8][8], red());
    assert_eq!(other.data[15][15], red());
    assert_eq!(other.data[16][16], blue());
}

#[test]
fn later_sprite_shows_the_earlier_one_through_its_transparent_pixels() {
    let mut vfb = small_canvas();
    token(1, 0, 0).draw(&atlas(), &mut vfb);
    token(3, 0, 0).draw(&atlas(), &mut vfb);
    assert_eq!(vfb.data[0][0], blue());
    assert_eq!(vfb.data[7][15], blue());
    assert_eq!(vfb.data[8][0], red());
    assert_eq!(vfb.data[15][15], red());
}

#[test]
fn sprites_collide_where_their_boxes_overlap() {
    let a = token(0, 0, 0);
    assert!(a.collides(&token(0, 0, 0)));
    assert!(a.collides(&token(0, 15, 15)));
    assert!(a.collides(&token(0, -15, -15)));
    assert!(a.collides(&token(0, 15, -15)));
}

#[test]
fn sprites_that_only_touch_do_not_collide() {
    let a = token(0, 0, 0);
    assert!(!a.collides(&token(0, 16, 0)));
    assert!(!a.collides(&token(0, -16, 0)));
    assert!(!a.collides(&token(0, 0, 16)));
    assert!(!a.collides(&token(0, 0, -16)));
    assert!(!a.collides(&token(0, 16, 16)));
}

#[test]
fn sprites_must_overlap_on_both_axes() {
    let a = token(0, 100, 100);
    assert!(!a.collides(&token(0, 100, 200)));
    assert!(!a.collides(&token(0, 200, 100)));
    assert!(!a.collides(&token(0, 105, 116)));
    assert!(a.collides(&token(0, 105, 115)));
}

#[test]
fn collision_of_sprites_at_the_ends_of_the_number_range() {
    let a = token(0, i32::MAX, i32::MAX);
    let b = token(0, i32::MIN, i32::MIN);
    assert!(!a.collides(&b));
    assert!(!b.collides(&a));
    assert!(a.collides(&token(0, i32::MAX - 15, i32::MAX)));
}

#[test]
fn rectangular_sprites_are_well_formed() {
    assert!(Sprite::default().is_well_formed());
    assert!(Sprite::new(vec![]).is_well_formed());
    assert!(Sprite::new(vec![vec![], vec![]]).is_well_formed());
    assert!(Sprite::new(vec![vec![cell(0), cell(1)], vec![cell(2), cell(3)]]).is_well_formed());
}

#[test]
fn ragged_sprites_are_not_well_formed() {
    assert!(!Sprite::new(vec![vec![cell(0), cell(1)], vec![cell(2)]]).is_well_formed());
    assert!(!Sprite::new(vec![vec![], vec![cell(2)]]).is_well_formed());
    assert!(!Sprite::new(vec![vec![cell(0)], vec![cell(1), cell(2)]]).is_well_formed());
}

#[test]
fn a_sprite_fits_an_atlas_that_holds_all_its_tiles() {
    let tiles = atlas();
    assert!(Sprite::new(vec![vec![cell(0), cell(3)], vec![cell(2), cell(1)]]).fits_tiles(&tiles));
    assert!(!Sprite::new(vec![vec![cell(0), cell(3)], vec![cell(2), cell(4)]]).fits_tiles(&tiles));
    assert!(!Sprite::new(vec![vec![cell(usize::MAX)]]).fits_tiles(&tiles));
    assert!(Sprite::new(vec![]).fits_tiles(&tiles));
    assert!(!Sprite::default().fits_tiles(&TileSet { tiles: vec![], columns: 0 }));
}
