use mansion::actors::{Mask, Player, Treasure};
use mansion::canvas::VirtualFrameBuffer;
use mansion::entity::{Entity, EntityStore};
use mansion::error::{DecodeError, LevelError, UnknownSymbolError};
use mansion::level::{
    holds_symbol, level_name, Level, LEVEL_BYTES, LEVEL_CELLS, LEVEL_HEIGHT, LEVEL_STRIDE, LEVEL_WIDTH,
};
use mansion::math::vec2::Vec2;
use mansion::math::vec4::Color4;
use mansion::sprite::Sprite;
use mansion::tiles::{Tile, TileSet};

/// A level resource with the symbol of `at(x, y)` in every cell and a line
/// feed at the end of every row.
fn resource(at: &dyn Fn(usize, usize) -> u8) -> Vec<u8> {
    let mut bytes = Vec::new();
    for y in 0..30 {
        for x in 0..40 {
            bytes.push(at(x, y));
        }
        bytes.push(b'\n');
    }
    bytes
}

fn store() -> EntityStore {
    let mut store = EntityStore::new();
    store.insert(' ', Entity { tile_index: 0, wall: false, door_colors: vec![] });
    store.insert('#', Entity { tile_index: 1, wall: true, door_colors: vec![] });
    store.insert('D', Entity { tile_index: 2, wall: true, door_colors: vec![0, 2] });
    store
}

fn walled(x: usize, y: usize) -> u8 {
    if x == 0 || y == 0 || x == 39 || y == 29 {
        b'#'
    } else if x == 10 && y == 10 {
        b'D'
    } else {
        b' '
    }
}

fn items(x: usize, y: usize) -> u8 {
    match (x, y) {
        (2, 3) => b'P',
        (5, 1) => b'B',
        (5, 0) => b'G',
        (4, 20) => b'R',
        (30, 7) => b'T',
        (6, 6) => b'x',
        _ => b' ',
    }
}

fn level() -> Level {
    Level::new_from_bytes(&resource(&walled), &resource(&items), &store(), 3).unwrap()
}

fn mask_at(color: usize, x: i32, y: i32) -> Mask {
    let mut mask = Mask::new_from_color_id(color);
    mask.sprite.pos = Vec2::new(x, y);
    mask
}

fn colors_and_places(level: &Level) -> Vec<(usize, i32, i32)> {
    level.masks.iter().map(|m| (m.mask_color, m.sprite.pos.x(), m.sprite.pos.y())).collect()
}

fn small_level(masks: Vec<Mask>) -> Level {
    let cells = (0..4).map(|_| (0..4).map(|_| Entity::default()).collect()).collect();
    Level { sprite: Sprite::new(cells), player: Player::new(), masks, treasure: Treasure::new() }
}

#[test]
fn level_constants() {
    assert_eq!(Level::WIDTH, 40);
    assert_eq!(Level::HEIGHT, 30);
    assert_eq!(LEVEL_WIDTH, 40);
    assert_eq!(LEVEL_HEIGHT, 30);
    assert_eq!(LEVEL_CELLS, 1200);
    assert_eq!(LEVEL_STRIDE, 41);
    assert_eq!(LEVEL_BYTES, 1230);
}

#[test]
fn levels_are_named_by_their_decimal_number() {
    assert_eq!(level_name(0), "0");
    assert_eq!(level_name(7), "7");
    assert_eq!(level_name(10), "10");
    assert_eq!(level_name(1234567890), "1234567890");
    assert_eq!(level_name(usize::MAX), format!("{}", usize::MAX));
    for n in [9usize, 99, 100, 101, 4096, 65535] {
        assert_eq!(level_name(n), format!("{}", n));
    }
}

#[test]
fn level_resources_are_named_after_the_level() {
    assert_eq!(Level::file_name("0"), "0.lvl");
    assert_eq!(Level::items_file_name("0"), "0.lvl.items");
    assert_eq!(Level::file_name("12"), "12.lvl");
    assert_eq!(Level::items_file_name("12"), "12.lvl.items");
}

#[test]
fn terrain_holds_the_entity_of_every_symbol() {
    let level = level();
    assert_eq!(level.sprite.pos, Vec2::new(0, 0));
    assert_eq!(level.sprite.entities.len(), 40);
    for x in 0..40 {
        assert_eq!(level.sprite.entities[x].len(), 30);
        for y in 0..30 {
            let cell = &level.sprite.entities[x][y];
            let expected = match walled(x, y) {
                b'#' => (1, true, vec![]),
                b'D' => (2, true, vec![0, 2]),
                _ => (0, false, vec![]),
            };
            assert_eq!((cell.tile_index, cell.wall, cell.door_colors.clone()), expected);
        }
    }
}

#[test]
fn items_are_placed_where_their_symbols_stand() {
    let level = level();
    assert_eq!(level.player.sprite.pos, Vec2::new(32, 48));
    assert_eq!(level.treasure.sprite.pos, Vec2::new(480, 112));
    assert_eq!(colors_and_places(&level), vec![(0, 64, 320), (1, 80, 0), (2, 80, 16)]);
    for mask in &level.masks {
        assert_eq!(mask.sprite.tiles_width(), 1);
        assert_eq!(mask.sprite.tiles_height(), 1);
    }
}

#[test]
fn a_new_level_has_a_player_without_a_mask() {
    let level = level();
    assert!(!level.player.has_mask);
    assert_eq!(level.player.mask_color, 0);
}

#[test]
fn actors_without_a_symbol_stand_at_the_origin() {
    let level =
        Level::new_from_bytes(&resource(&walled), &resource(&|_, _| b'.'), &store(), 3).unwrap();
    assert_eq!(level.player.sprite.pos, Vec2::new(0, 0));
    assert_eq!(level.treasure.sprite.pos, Vec2::new(0, 0));
    assert!(level.masks.is_empty());
}

#[test]
fn the_last_symbol_of_an_actor_counts() {
    let placed = |x: usize, y: usize| match (x, y) {
        (1, 1) | (1, 2) | (3, 0) => b'P',
        (7, 7) | (2, 9) => b'T',
        _ => b' ',
    };
    let level = Level::new_from_bytes(&resource(&walled), &resource(&placed), &store(), 3).unwrap();
    assert_eq!(level.player.sprite.pos, Vec2::new(48, 0));
    assert_eq!(level.treasure.sprite.pos, Vec2::new(112, 112));
}

#[test]
fn resources_of_another_length_are_refused() {
    let good = resource(&walled);
    let mut short = good.clone();
    short.pop();
    let mut long = good.clone();
    long.push(b'\n');
    for (terrain, item) in [(&short, &good), (&good, &short), (&long, &good), (&good, &long)] {
        assert!(matches!(
            Level::new_from_bytes(terrain, item, &store(), 3),
            Err(LevelError::Decode(DecodeError::BadLevelSize))
        ));
    }
    assert!(matches!(
        Level::new_from_bytes(&[], &[], &store(), 3),
        Err(LevelError::Decode(DecodeError::BadLevelSize))
    ));
}

#[test]
fn an_unknown_symbol_is_refused() {
    let odd = |x: usize, y: usize| match (x, y) {
        (5, 5) => b'?',
        (5, 4) => b'!',
        (4, 29) => b'%',
        (6, 0) => b'&',
        _ => walled(x, y),
    };
    let r = Level::new_from_bytes(&resource(&odd), &resource(&items), &store(), 3);
    assert!(matches!(
        r,
        Err(LevelError::UnknownSymbol(UnknownSymbolError { symbol: '%' }))
    ));
}

#[test]
fn an_unknown_symbol_counts_before_a_tile_out_of_range() {
    let odd = |x: usize, y: usize| if (x, y) == (39, 29) { b'?' } else { walled(x, y) };
    let r = Level::new_from_bytes(&resource(&odd), &resource(&items), &store(), 1);
    assert!(matches!(
        r,
        Err(LevelError::UnknownSymbol(UnknownSymbolError { symbol: '?' }))
    ));
}

#[test]
fn a_tile_that_the_atlas_lacks_is_refused() {
    let r = Level::new_from_bytes(&resource(&walled), &resource(&items), &store(), 2);
    assert!(matches!(r, Err(LevelError::Decode(DecodeError::TileOutOfRange))));
    let mut plain = EntityStore::new();
    plain.insert(b'.' as char, Entity::default());
    let dots = resource(&|_, _| b'.');
    assert!(Level::new_from_bytes(&dots, &dots, &plain, 1).is_ok());
    assert!(matches!(
        Level::new_from_bytes(&dots, &dots, &plain, 0),
        Err(LevelError::Decode(DecodeError::TileOutOfRange))
    ));
}

#[test]
fn symbols_beyond_ascii_are_read_as_one_byte_each() {
    let mut s = EntityStore::new();
    s.insert('\u{e9}', Entity { tile_index: 0, wall: true, door_colors: vec![] });
    let bytes = resource(&|_, _| 0xe9);
    let level = Level::new_from_bytes(&bytes, &bytes, &s, 1).unwrap();
    assert!(level.sprite.entities[39][29].wall);
}

#[test]
fn missing_symbols_are_listed_once_in_reading_order() {
    let odd = |x: usize, y: usize| match (x, y) {
        (5, 5) | (7, 7) => b'?',
        (5, 4) | (39, 29) => b'!',
        (1, 1) => b'D',
        _ => walled(x, y),
    };
    let mut s = EntityStore::new();
    s.insert('#', Entity::default());
    assert_eq!(Level::missing_symbols(&resource(&odd), &s), Ok(vec!['D', ' ', '!', '?']));
    assert_eq!(
        Level::missing_symbols(&resource(&odd), &EntityStore::new()),
        Ok(vec!['#', 'D', ' ', '!', '?'])
    );
    assert_eq!(Level::missing_symbols(&resource(&walled), &store()), Ok(vec![]));
    assert_eq!(Level::missing_symbols(&[1, 2, 3], &store()), Err(DecodeError::BadLevelSize));
}

#[test]
fn holds_symbol_looks_through_the_list() {
    assert!(holds_symbol(&vec!['a', 'b'], 'b'));
    assert!(!holds_symbol(&vec!['a', 'b'], 'c'));
    assert!(!holds_symbol(&vec![], 'a'));
}

#[test]
fn collides_is_none_where_nothing_is_in_the_way() {
    let level = level();
    assert!(level.collides(&level.player.sprite, Vec2::new(1, 0)).is_none());
    assert!(level.collides(&level.player.sprite, Vec2::new(0, 0)).is_none());
}

#[test]
fn collides_returns_the_walls_in_the_way() {
    let level = level();
    let hits = level.collides(&level.player.sprite, Vec2::new(-17, 0)).unwrap();
    assert_eq!(hits.len(), 1);
    assert!(hits[0].wall);
    assert_eq!(hits[0].tile_index, 1);
    let mut at_door = Sprite::default();
    at_door.pos = Vec2::new(144, 160);
    let hits = level.collides(&at_door, Vec2::new(1, 0)).unwrap();
    assert_eq!(hits.len(), 1);
    assert_eq!(hits[0].door_colors, vec![0, 2]);
}

#[test]
fn a_free_move_moves_the_player() {
    let mut level = level();
    assert!(level.try_move(Vec2::new(1, 0)));
    assert_eq!(level.player.sprite.pos, Vec2::new(33, 48));
    assert!(level.try_move(Vec2::new(0, -1)));
    assert_eq!(level.player.sprite.pos, Vec2::new(33, 47));
    assert!(level.try_move(Vec2::new(0, 0)));
    assert_eq!(level.player.sprite.pos, Vec2::new(33, 47));
}

#[test]
fn a_move_into_a_wall_is_dropped() {
    let mut level = level();
    level.player.sprite.pos = Vec2::new(16, 16);
    assert!(!level.try_move(Vec2::new(-1, 0)));
    assert_eq!(level.player.sprite.pos, Vec2::new(16, 16));
    assert!(!level.try_move(Vec2::new(0, -1)));
    assert_eq!(level.player.sprite.pos, Vec2::new(16, 16));
    level.player.has_mask = true;
    level.player.mask_color = 0;
    assert!(!level.try_move(Vec2::new(-1, 0)));
    assert_eq!(level.player.sprite.pos, Vec2::new(16, 16));
    assert!(level.try_move(Vec2::new(1, 0)));
    assert_eq!(level.player.sprite.pos, Vec2::new(17, 16));
}

#[test]
fn a_door_lets_the_right_mask_pass() {
    let mut level = level();
    level.player.sprite.pos = Vec2::new(144, 160);
    assert!(!level.try_move(Vec2::new(1, 0)));
    level.player.has_mask = true;
    level.player.mask_color = 1;
    assert!(!level.try_move(Vec2::new(1, 0)));
    assert_eq!(level.player.sprite.pos, Vec2::new(144, 160));
    level.player.mask_color = 2;
    assert!(level.try_move(Vec2::new(1, 0)));
    assert_eq!(level.player.sprite.pos, Vec2::new(145, 160));
    level.player.mask_color = 0;
    assert!(level.try_move(Vec2::new(1, 0)));
    assert_eq!(level.player.sprite.pos, Vec2::new(146, 160));
    level.player.has_mask = false;
    assert!(!level.try_move(Vec2::new(1, 0)));
    assert_eq!(level.player.sprite.pos, Vec2::new(146, 160));
}

#[test]
fn a_move_changes_nothing_but_the_position_of_the_player() {
    let mut level = level();
    let masks = colors_and_places(&level);
    level.try_move(Vec2::new(1, 1));
    assert_eq!(colors_and_places(&level), masks);
    assert_eq!(level.treasure.sprite.pos, Vec2::new(480, 112));
    assert!(!level.player.has_mask);
    assert_eq!(level.sprite.entities.len(), 40);
}

#[test]
fn the_goal_is_reached_where_player_and_treasure_overlap() {
    let mut level = level();
    assert!(!level.goal_reached());
    level.player.sprite.pos = Vec2::new(480 - 16, 112);
    assert!(!level.goal_reached());
    level.player.sprite.pos = Vec2::new(480 - 15, 112 + 15);
    assert!(level.goal_reached());
    level.player.sprite.pos = Vec2::new(480, 112);
    assert!(level.goal_reached());
    level.player.sprite.pos = Vec2::new(480, 112 + 16);
    assert!(!level.goal_reached());
}

#[test]
fn picking_up_a_mask_takes_it_out_of_the_world() {
    let mut level = small_level(vec![mask_at(1, 100, 100), mask_at(0, 0, 0), mask_at(2, 40, 40)]);
    level.interact();
    assert!(level.player.has_mask);
    assert_eq!(level.player.mask_color, 0);
    assert_eq!(colors_and_places(&level), vec![(1, 100, 100), (2, 40, 40)]);
    assert_eq!(level.player.sprite.pos, Vec2::new(0, 0));
}

#[test]
fn mask_swap_in_one_action() {
    const RED: usize = 0;
    const GREEN: usize = 1;
    const BLUE: usize = 2;
    let mut level =
        small_level(vec![mask_at(RED, 0, 0), mask_at(BLUE, 32, 0), mask_at(GREEN, 200, 200)]);
    level.interact();
    assert!(level.player.has_mask);
    assert_eq!(level.player.mask_color, RED);
    assert_eq!(colors_and_places(&level), vec![(BLUE, 32, 0), (GREEN, 200, 200)]);
    level.player.sprite.pos = Vec2::new(30, 4);
    level.interact();
    assert!(level.player.has_mask);
    assert_eq!(level.player.mask_color, BLUE);
    assert_eq!(colors_and_places(&level), vec![(GREEN, 200, 200), (RED, 30, 4)]);
}

#[test]
fn dropping_a_mask_lays_it_where_the_player_stands() {
    let mut level = small_level(vec![mask_at(1, 100, 100)]);
    level.player.has_mask = true;
    level.player.mask_color = 2;
    level.player.sprite.pos = Vec2::new(7, 9);
    level.interact();
    assert!(!level.player.has_mask);
    assert_eq!(colors_and_places(&level), vec![(1, 100, 100), (2, 7, 9)]);
    level.interact();
    assert!(level.player.has_mask);
    assert_eq!(level.player.mask_color, 2);
    assert_eq!(colors_and_places(&level), vec![(1, 100, 100)]);
}

#[test]
fn an_action_without_a_mask_in_reach_changes_nothing() {
    let mut level = small_level(vec![mask_at(1, 16, 0), mask_at(2, 0, 16)]);
    level.interact();
    assert!(!level.player.has_mask);
    assert_eq!(colors_and_places(&level), vec![(1, 16, 0), (2, 0, 16)]);
}

#[test]
fn the_first_mask_in_reach_is_picked_up() {
    let mut level = small_level(vec![mask_at(2, 50, 50), mask_at(1, 5, 5), mask_at(0, 0, 0), mask_at(1, 1, 1)]);
    level.interact();
    assert_eq!(level.player.mask_color, 1);
    assert_eq!(colors_and_places(&level), vec![(2, 50, 50), (0, 0, 0), (1, 1, 1)]);
}

#[test]
fn player_masks() {
    let mut player = Player::new();
    assert!(!player.has_mask);
    assert_eq!(player.mask_color, 0);
    assert_eq!(player.sprite.pos, Vec2::new(0, 0));
    assert!(player.drop_mask().is_none());
    player.take_mask(&mask_at(2, 9, 9));
    assert!(player.has_mask);
    assert_eq!(player.mask_color, 2);
    assert_eq!(player.sprite.pos, Vec2::new(0, 0));
    let dropped = player.drop_mask().unwrap();
    assert_eq!(dropped.mask_color, 2);
    assert_eq!(dropped.sprite.pos, Vec2::new(0, 0));
    assert!(!player.has_mask);
    assert!(player.drop_mask().is_none());
}

#[test]
fn new_mask_has_its_colour_and_a_token_sprite() {
    let mask = Mask::new_from_color_id(5);
    assert_eq!(mask.mask_color, 5);
    assert_eq!(mask.sprite.pos, Vec2::new(0, 0));
    assert_eq!(mask.sprite.tiles_width(), 1);
    assert_eq!(mask.sprite.tiles_height(), 1);
    let treasure = Treasure::new();
    assert_eq!(treasure.sprite.pos, Vec2::new(0, 0));
    assert_eq!(treasure.sprite.tiles_width(), 1);
}

fn solid(r: i32) -> Tile {
    Tile { pixels: [[Color4::new(r, 0, 0, 1); 16]; 16] }
}

#[test]
fn level_is_drawn_terrain_first_and_player_last() {
    let cells = (0..3).map(|_| (0..3).map(|_| Entity { tile_index: 1, wall: false, door_colors: vec![] }).collect()).collect();
    let mut level = Level {
        sprite: Sprite::new(cells),
        player: Player::new(),
        masks: vec![mask_at(0, 4, 0), mask_at(1, 8, 0)],
        treasure: Treasure::new(),
    };
    level.player.sprite.entities[0][0].tile_index = 2;
    level.treasure.sprite.entities[0][0].tile_index = 3;
    level.masks[0].sprite.entities[0][0].tile_index = 4;
    level.masks[1].sprite.entities[0][0].tile_index = 5;
    level.player.sprite.pos = Vec2::new(16, 0);
    level.treasure.sprite.pos = Vec2::new(12, 0);
    let tiles = TileSet { tiles: (0..6).map(solid).collect(), columns: 6 };
    let mut vfb = VirtualFrameBuffer { data: vec![vec![Color4::new(0, 0, 0, 255); 50]; 50] };
    level.draw(&tiles, &mut vfb);
    let shown: Vec<i32> = (0..50).map(|x| vfb.data[x][0].x()).collect();
    let mut expected = vec![1, 1, 1, 1, 4, 4, 4, 4, 5, 5, 5, 5, 3, 3, 3, 3];
    expected.extend(vec![2; 16]);
    expected.extend(vec![1; 16]);
    expected.extend(vec![0; 2]);
    assert_eq!(shown, expected);
    assert_eq!(vfb.data[0][47], Color4::new(1, 0, 0, 1));
    assert_eq!(vfb.data[0][48], Color4::new(0, 0, 0, 255));
}

#[test]
fn a_loaded_level_can_be_drawn_with_its_atlas() {
    let level = level();
    let three = TileSet { tiles: (0..3).map(solid).collect(), columns: 3 };
    let two = TileSet { tiles: (0..2).map(solid).collect(), columns: 2 };
    assert!(level.can_draw(&three));
    assert!(!level.can_draw(&two));
}

#[test]
fn a_level_with_a_ragged_sprite_cannot_be_drawn() {
    let tiles = TileSet { tiles: (0..3).map(solid).collect(), columns: 3 };
    let mut level = small_level(vec![mask_at(0, 0, 0)]);
    assert!(level.can_draw(&tiles));
    level.masks[0].sprite.entities.push(vec![]);
    assert!(!level.can_draw(&tiles));
    let mut level = small_level(vec![]);
    level.sprite.entities[2].pop();
    assert!(!level.can_draw(&tiles));
    let mut level = small_level(vec![mask_at(0, 0, 0), mask_at(1, 0, 0)]);
    level.masks[1].sprite.entities[0][0].tile_index = 3;
    assert!(!level.can_draw(&tiles));
}
