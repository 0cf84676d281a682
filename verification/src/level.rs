//! A level: the terrain grid, the player, the masks in the world and the
//! treasure; how it is built from its two resources, and the moves of play.

use crate::actors::{Mask, MaskModel, MaskState, Player, Treasure};
use crate::canvas::{Grid, VirtualFrameBuffer};
use crate::collision::{
    can_pass, collisions, models, moved_bounds, passage_permitted, query,
};
use crate::entity::{entity_of_resource, Entity, EntityModel, EntityStore};
use crate::error::{
    DecodeError, LevelError, LoadError, LoadFailure, ResourceName, UnknownSymbolError,
};
use crate::geometry::rects_overlap;
use crate::math::vec2::Vec2;
use crate::resources::Resources;
use crate::sprite::{painted, DrawFramebuffer, Sprite};
use crate::tiles::TileSet;
use vstd::prelude::*;
use vstd::string::StringExecFns;

verus! {

/// Number of cell columns of a level.
pub const LEVEL_WIDTH: usize = 40;

/// Number of cell rows of a level.
pub const LEVEL_HEIGHT: usize = 30;

/// Number of cells of a level.
pub const LEVEL_CELLS: usize = 1200;

/// Length of a row of a level resource: its symbols and one terminator byte.
pub const LEVEL_STRIDE: usize = 41;

/// Length of a level resource.
pub const LEVEL_BYTES: usize = 1230;

/// The symbol of the cell in column `x` and row `y` of a level resource.
pub open spec fn symbol_at(bytes: Seq<u8>, x: int, y: int) -> char {
    bytes[y * LEVEL_STRIDE + x] as char
}

/// The symbol of the `k`-th cell in the order in which a level is read:
/// column by column from the left, each column from the top down.
pub open spec fn symbol_of_cell(bytes: Seq<u8>, k: int) -> char {
    symbol_at(bytes, k / LEVEL_HEIGHT as int, k % LEVEL_HEIGHT as int)
}

/// The pixel position of the `k`-th cell.
pub open spec fn position_of_cell(k: int) -> Vec2 {
    Vec2 {
        x: ((k / LEVEL_HEIGHT as int) * 16) as i32,
        y: ((k % LEVEL_HEIGHT as int) * 16) as i32,
    }
}

/// The first symbol among the first `k` cells that `store` does not know.
pub open spec fn unknown_before(bytes: Seq<u8>, store: &EntityStore, k: int) -> Option<char>
    decreases k,
{
    if k <= 0 {
        None
    } else {
        match unknown_before(bytes, store, k - 1) {
            Some(symbol) => Some(symbol),
            None => if store.knows(symbol_of_cell(bytes, k - 1)) {
                None
            } else {
                Some(symbol_of_cell(bytes, k - 1))
            },
        }
    }
}

/// Whether an atlas of `tile_count` tiles holds the tile of each of the
/// first `k` cells of a level resource.
pub open spec fn cell_tiles_below(bytes: Seq<u8>, store: &EntityStore, tile_count: usize, k: int) -> bool {
    forall|j: int|
        0 <= j < k ==> (#[trigger] store.entity_of(symbol_of_cell(bytes, j))).tile_index < tile_count
}

/// Whether an atlas of `tile_count` tiles holds the tile of every cell of
/// the level, and tile 0, which the actors are drawn with.
pub open spec fn tiles_in_range(bytes: Seq<u8>, store: &EntityStore, tile_count: usize) -> bool {
    tile_count > 0 && cell_tiles_below(bytes, store, tile_count, LEVEL_CELLS as int)
}

/// Whether `column` holds the entities of the first `rows` cells of column
/// `x` of a level resource.
pub open spec fn is_column_of(
    column: Seq<Entity>,
    bytes: Seq<u8>,
    store: &EntityStore,
    x: int,
    rows: int,
) -> bool {
    &&& column.len() == rows
    &&& forall|y: int|
        0 <= y < rows ==> (#[trigger] column[y])@ == store.entity_of(symbol_at(bytes, x, y))
}

/// Whether `entities` is the terrain grid of a level resource: for each
/// cell the entity of its symbol.
pub open spec fn is_terrain_of(entities: Seq<Vec<Entity>>, bytes: Seq<u8>, store: &EntityStore) -> bool {
    &&& entities.len() == LEVEL_WIDTH
    &&& forall|x: int|
        0 <= x < LEVEL_WIDTH ==> is_column_of(
            (#[trigger] entities[x])@,
            bytes,
            store,
            x,
            LEVEL_HEIGHT as int,
        )
}

/// The colour of the mask that an item symbol places: `R` is 0, `G` is 1,
/// `B` is 2.
pub open spec fn mask_color_of(symbol: char) -> Option<usize> {
    if symbol == 'R' {
        Some(0usize)
    } else if symbol == 'G' {
        Some(1usize)
    } else if symbol == 'B' {
        Some(2usize)
    } else {
        None
    }
}

/// The masks that the first `k` cells of an item resource place, in order.
pub open spec fn placed_masks(items: Seq<u8>, k: int) -> Seq<MaskModel>
    decreases k,
{
    if k <= 0 {
        Seq::empty()
    } else {
        match mask_color_of(symbol_of_cell(items, k - 1)) {
            Some(color) => placed_masks(items, k - 1).push(
                MaskModel { pos: position_of_cell(k - 1), color },
            ),
            None => placed_masks(items, k - 1),
        }
    }
}

/// Where the first `k` cells of an item resource place the actor with the
/// symbol `symbol`: at the last cell that holds the symbol, or at the origin
/// where none does.
pub open spec fn placed_actor(items: Seq<u8>, symbol: char, k: int) -> Vec2
    decreases k,
{
    if k <= 0 {
        Vec2 { x: 0, y: 0 }
    } else if symbol_of_cell(items, k - 1) == symbol {
        position_of_cell(k - 1)
    } else {
        placed_actor(items, symbol, k - 1)
    }
}

/// The symbols among the first `k` cells of a level resource that `store`
/// does not know, each once, in the order in which they are first met.
pub open spec fn missing_before(bytes: Seq<u8>, store: &EntityStore, k: int) -> Seq<char>
    decreases k,
{
    if k <= 0 {
        Seq::empty()
    } else {
        let rest = missing_before(bytes, store, k - 1);
        let symbol = symbol_of_cell(bytes, k - 1);
        if store.knows(symbol) || rest.contains(symbol) {
            rest
        } else {
            rest.push(symbol)
        }
    }
}

/// The character of the decimal digit `d`.
pub open spec fn digit_char(d: nat) -> char {
    ((48 + d) as u8) as char
}

/// The decimal digits of `n`, the most significant first.
pub open spec fn decimal(n: nat) -> Seq<char>
    decreases n,
{
    if n < 10 {
        seq![digit_char(n)]
    } else {
        decimal(n / 10).push(digit_char(n % 10))
    }
}

/// Name of the terrain resource of the level `level_name`.
pub open spec fn terrain_name(level_name: Seq<char>) -> Seq<char> {
    level_name + ".lvl"@
}

/// Name of the item resource of the level `level_name`.
pub open spec fn items_name(level_name: Seq<char>) -> Seq<char> {
    level_name + ".lvl.items"@
}

/// A resource of the directory `levels`.
pub open spec fn level_resource(name: Seq<char>) -> ResourceName {
    ResourceName { directory: Some("levels"@), name }
}

/// The entity of the grid symbol `symbol` as the resources describe it: its
/// descriptor is named after the symbol.
pub open spec fn entity_of_symbol(resources: &Resources, symbol: char) -> Result<EntityModel, LoadFailure> {
    entity_of_resource(resources, seq![symbol])
}

/// How many of the first `n` symbols are loaded before the first one whose
/// entity the resources do not describe.
pub open spec fn loaded_count(resources: &Resources, symbols: Seq<char>, n: int) -> int
    decreases n,
{
    if n <= 0 {
        0
    } else {
        let before = loaded_count(resources, symbols, n - 1);
        if before == n - 1 && entity_of_symbol(resources, symbols[n - 1]) is Ok {
            n
        } else {
            before
        }
    }
}

/// Whether `after` is `before` with the entities of `symbols` loaded from
/// the resources: it knows what `before` knew and these symbols, it keeps
/// every entity of `before`, and for each of the symbols it holds the
/// entity that the resources describe.
pub open spec fn extended_by(
    after: &EntityStore,
    before: &EntityStore,
    resources: &Resources,
    symbols: Seq<char>,
) -> bool {
    &&& forall|c: char| #[trigger] after.knows(c) <==> before.knows(c) || symbols.contains(c)
    &&& forall|c: char| before.knows(c) ==> #[trigger] after.entity_of(c) == before.entity_of(c)
    &&& forall|i: int|
        0 <= i < symbols.len() ==> entity_of_symbol(resources, #[trigger] symbols[i]) == Ok::<
            EntityModel,
            LoadFailure,
        >(after.entity_of(symbols[i]))
}

/// The masks of a list as plain values.
pub open spec fn mask_models(masks: Seq<Mask>) -> Seq<MaskModel> {
    masks.map_values(|m: Mask| m@)
}

/// Whether the actors are placed as the first `k` cells of an item resource
/// say: the player and the treasure where their symbols `P` and `T` stand
/// last, a mask for every mask symbol, and the player without a mask.
pub open spec fn items_placed(
    player: Player,
    masks: Seq<Mask>,
    treasure: Treasure,
    items: Seq<u8>,
    k: int,
) -> bool {
    &&& player.state() == MaskState::Unmasked
    &&& player.mask_color == 0
    &&& player.sprite.is_token()
    &&& player.sprite.pos == placed_actor(items, 'P', k)
    &&& treasure.sprite.is_token()
    &&& treasure.sprite.pos == placed_actor(items, 'T', k)
    &&& mask_models(masks) == placed_masks(items, k)
    &&& forall|i: int| 0 <= i < masks.len() ==> (#[trigger] masks[i]).sprite.is_token()
}

/// A level: `sprite` is the terrain grid.
pub struct Level {
    pub sprite: Sprite,
    pub player: Player,
    pub masks: Vec<Mask>,
    pub treasure: Treasure,
}

/// Calls `String::from` on a character: the text of that one character.
#[verifier::external_body]
fn char_text(c: char) -> (r: String)
    ensures
        r@ == seq![c],
{
    String::from(c)
}

/// The name of the level with the number `number`: its decimal digits.
pub fn level_name(number: usize) -> (r: String)
    ensures
        r@ == decimal(number as nat),
    decreases number,
{
    let digit = char_text((48 + (number % 10) as u8) as char);
    if number < 10 {
        digit
    } else {
        let name = level_name(number / 10).concat(digit.as_str());
        assert(name@ =~= decimal(number as nat));
        name
    }
}

/// Whether `symbol` is among `symbols`.
pub fn holds_symbol(symbols: &Vec<char>, symbol: char) -> (r: bool)
    ensures
        r == symbols@.contains(symbol),
{
    let mut i: usize = 0;
    while i < symbols.len()
        invariant
            i <= symbols@.len(),
            forall|j: int| 0 <= j < i ==> symbols@[j] != symbol,
        decreases symbols@.len() - i,
    {
        if symbols[i] == symbol {
            return true;
        }
        i += 1;
    }
    false
}

/// Once a symbol is unknown among the first cells it stays the first unknown
/// symbol however many cells follow.
pub proof fn lemma_unknown_stays(bytes: Seq<u8>, store: &EntityStore, k: int, later: int)
    requires
        0 <= k <= later,
        unknown_before(bytes, store, k) is Some,
    ensures
        unknown_before(bytes, store, later) == unknown_before(bytes, store, k),
    decreases later - k,
{
    if k < later {
        lemma_unknown_stays(bytes, store, k, later - 1);
    }
}

/// Each of the first `k` cells holds a symbol that `store` knows or that is
/// listed as missing.
pub proof fn lemma_symbol_known_or_missing(bytes: Seq<u8>, store: &EntityStore, k: int, cell: int)
    requires
        0 <= cell < k,
    ensures
        store.knows(symbol_of_cell(bytes, cell)) || missing_before(bytes, store, k).contains(
            symbol_of_cell(bytes, cell),
        ),
    decreases k,
{
    let rest = missing_before(bytes, store, k - 1);
    let last = symbol_of_cell(bytes, k - 1);
    if cell < k - 1 {
        lemma_symbol_known_or_missing(bytes, store, k - 1, cell);
        let symbol = symbol_of_cell(bytes, cell);
        if rest.contains(symbol) && !(store.knows(last) || rest.contains(last)) {
            let i = choose|i: int| 0 <= i < rest.len() && rest[i] == symbol;
            assert(rest.push(last)[i] == symbol);
        }
    } else if !(store.knows(last) || rest.contains(last)) {
        assert(rest.push(last)[rest.len() as int] == last);
    }
}

/// Loading what is missing is enough: a store that knows what `before`
/// knew and every symbol that was listed as missing knows every symbol of
/// the level.
pub proof fn lemma_missing_symbols_suffice(
    bytes: Seq<u8>,
    before: &EntityStore,
    after: &EntityStore,
    k: int,
)
    requires
        0 <= k <= LEVEL_CELLS,
        forall|symbol: char| before.knows(symbol) ==> after.knows(symbol),
        forall|symbol: char|
            missing_before(bytes, before, LEVEL_CELLS as int).contains(symbol) ==> after.knows(symbol),
    ensures
        unknown_before(bytes, after, k) is None,
    decreases k,
{
    if k > 0 {
        lemma_missing_symbols_suffice(bytes, before, after, k - 1);
        lemma_symbol_known_or_missing(bytes, before, LEVEL_CELLS as int, k - 1);
    }
}

/// The symbols that are listed as missing are unknown to the store, and
/// none is listed twice.
pub proof fn lemma_missing_are_new(bytes: Seq<u8>, store: &EntityStore, k: int)
    ensures
        forall|i: int|
            0 <= i < missing_before(bytes, store, k).len() ==> !store.knows(
                #[trigger] missing_before(bytes, store, k)[i],
            ),
        forall|i: int, j: int|
            0 <= i < j < missing_before(bytes, store, k).len() ==> missing_before(bytes, store, k)[i]
                != missing_before(bytes, store, k)[j],
    decreases k,
{
    if k > 0 {
        lemma_missing_are_new(bytes, store, k - 1);
        let rest = missing_before(bytes, store, k - 1);
        let all = missing_before(bytes, store, k);
        let symbol = symbol_of_cell(bytes, k - 1);
        if !(store.knows(symbol) || rest.contains(symbol)) {
            assert(all == rest.push(symbol));
            assert forall|i: int| 0 <= i < all.len() implies !store.knows(#[trigger] all[i]) by {
                if i < rest.len() {
                    assert(all[i] == rest[i]);
                }
            }
            assert forall|i: int, j: int| 0 <= i < j < all.len() implies all[i] != all[j] by {
                assert(all[i] == rest[i]);
                if j < rest.len() {
                    assert(all[j] == rest[j]);
                } else {
                    assert(rest.contains(rest[i]));
                }
            }
        }
    }
}

/// Once a symbol fails to load, the count of loaded symbols stays what it
/// is however many symbols follow.
pub proof fn lemma_loaded_count_stays(resources: &Resources, symbols: Seq<char>, n: int, later: int)
    requires
        0 <= n <= later,
        loaded_count(resources, symbols, n) < n,
    ensures
        loaded_count(resources, symbols, later) == loaded_count(resources, symbols, n),
    decreases later - n,
{
    if n < later {
        lemma_loaded_count_stays(resources, symbols, n, later - 1);
    }
}

/// Once the player touches one of the first masks, that mask stays the
/// first one touched however many masks follow.
pub proof fn lemma_first_touched_stays(level: &Level, n: int, later: int)
    requires
        0 <= n <= later,
        level.first_touched(n) is Some,
    ensures
        level.first_touched(later) == level.first_touched(n),
    decreases later - n,
{
    if n < later {
        lemma_first_touched_stays(level, n, later - 1);
    }
}

/// The mask that the player is first found to touch is one of the masks
/// looked at, the player touches it, and it touches none before it.
pub proof fn lemma_first_touched(level: &Level, n: int)
    requires
        0 <= n <= level.masks@.len(),
    ensures
        level.first_touched(n) matches Some(index) ==> 0 <= index < n && level.touches(index)
            && forall|j: int| 0 <= j < index ==> !level.touches(j),
        level.first_touched(n) is None ==> forall|j: int| 0 <= j < n ==> !level.touches(j),
    decreases n,
{
    if n > 0 {
        lemma_first_touched(level, n - 1);
    }
}

/// Picking up: a player without a mask that touches a mask of the world
/// carries the colour of the first such mask after an action, and that
/// mask has left the world.
pub proof fn lemma_pickup(before: &Level, after: &Level)
    requires
        before.player.state() == MaskState::Unmasked,
        before.picked() is Some,
        after.follows_action(*before),
    ensures
        0 <= before.picked()->Some_0 < before.masks@.len(),
        before.touches(before.picked()->Some_0),
        after.player.state() == MaskState::Masked(
            before.masks@[before.picked()->Some_0].mask_color,
        ),
        after.masks@ == before.masks@.remove(before.picked()->Some_0),
        after.masks@.len() == before.masks@.len() - 1,
{
    lemma_first_touched(before, before.masks@.len() as int);
}

/// Swapping: a player that carries a mask and touches a mask of the world
/// carries the colour of the touched mask after one action. The mask it
/// carried lies where the player stands, every other mask is still in the
/// world, and the world holds as many masks as before.
pub proof fn lemma_swap(before: &Level, after: &Level)
    requires
        before.player.state() is Masked,
        before.picked() is Some,
        after.follows_action(*before),
    ensures
        0 <= before.picked()->Some_0 < before.masks@.len(),
        after.player.state() == MaskState::Masked(
            before.masks@[before.picked()->Some_0].mask_color,
        ),
        after.masks@.len() == before.masks@.len(),
        after.masks@.drop_last() == before.masks@.remove(before.picked()->Some_0),
        after.masks@.last()@ == (MaskModel {
            pos: before.player.sprite.pos,
            color: before.player.state()->Masked_0,
        }),
{
    lemma_first_touched(before, before.masks@.len() as int);
}

/// Dropping: a player that carries a mask and touches no mask of the world
/// carries none after an action, and the mask lies where the player stands.
pub proof fn lemma_drop(before: &Level, after: &Level)
    requires
        before.player.state() is Masked,
        before.picked() is None,
        after.follows_action(*before),
    ensures
        after.player.state() == MaskState::Unmasked,
        after.masks@.drop_last() == before.masks@,
        after.masks@.last()@ == (MaskModel {
            pos: before.player.sprite.pos,
            color: before.player.state()->Masked_0,
        }),
{
}

impl Level {
    pub const WIDTH: usize = LEVEL_WIDTH;

    pub const HEIGHT: usize = LEVEL_HEIGHT;

    /// Whether every sprite of the level is well formed.
    pub open spec fn wf(&self) -> bool {
        &&& self.sprite.wf()
        &&& self.player.sprite.wf()
        &&& self.treasure.sprite.wf()
        &&& forall|i: int| 0 <= i < self.masks@.len() ==> (#[trigger] self.masks@[i]).sprite.wf()
    }

    /// Whether `tile_set` holds every tile that the level draws.
    pub open spec fn fits(&self, tile_set: &TileSet) -> bool {
        &&& self.sprite.fits(tile_set)
        &&& self.player.sprite.fits(tile_set)
        &&& self.treasure.sprite.fits(tile_set)
        &&& forall|i: int|
            0 <= i < self.masks@.len() ==> (#[trigger] self.masks@[i]).sprite.fits(tile_set)
    }

    /// Whether the level is the one that its two resources describe: the
    /// terrain holds for each cell the entity of its symbol, the items are
    /// placed where their symbols stand, and the player carries no mask.
    pub open spec fn loaded_from(
        &self,
        level_bytes: Seq<u8>,
        items: Seq<u8>,
        store: &EntityStore,
    ) -> bool {
        &&& self.sprite.wf()
        &&& self.sprite.pos == (Vec2 { x: 0, y: 0 })
        &&& is_terrain_of(self.sprite.entities@, level_bytes, store)
        &&& items_placed(self.player, self.masks@, self.treasure, items, LEVEL_CELLS as int)
    }

    /// Builds the terrain grid of a level resource. The second component
    /// says whether an atlas of `tile_count` tiles holds every cell's tile.
    fn load_terrain(level_bytes: &[u8], store: &EntityStore, tile_count: usize) -> (r: Result<
        (Vec<Vec<Entity>>, bool),
        UnknownSymbolError,
    >)
        requires
            level_bytes@.len() == LEVEL_BYTES,
        ensures
            match unknown_before(level_bytes@, store, LEVEL_CELLS as int) {
                Some(symbol) => r == Err::<(Vec<Vec<Entity>>, bool), UnknownSymbolError>(
                    UnknownSymbolError { symbol },
                ),
                None => r matches Ok((entities, in_range)) && is_terrain_of(
                    entities@,
                    level_bytes@,
                    store,
                ) && in_range == cell_tiles_below(level_bytes@, store, tile_count, LEVEL_CELLS as int),
            },
    {
        let mut entities: Vec<Vec<Entity>> = Vec::new();
        let mut in_range = true;
        let mut x: usize = 0;
        while x < LEVEL_WIDTH
            invariant
                level_bytes@.len() == LEVEL_BYTES,
                x <= LEVEL_WIDTH,
                entities@.len() == x,
                unknown_before(level_bytes@, store, x * LEVEL_HEIGHT) is None,
                forall|cx: int| 0 <= cx < x ==> is_column_of(
                    (#[trigger] entities@[cx])@,
                    level_bytes@,
                    store,
                    cx,
                    LEVEL_HEIGHT as int,
                ),
                in_range == cell_tiles_below(level_bytes@, store, tile_count, x * LEVEL_HEIGHT),
            decreases LEVEL_WIDTH - x,
        {
            let mut column: Vec<Entity> = Vec::new();
            let mut y: usize = 0;
            while y < LEVEL_HEIGHT
                invariant
                    level_bytes@.len() == LEVEL_BYTES,
                    x < LEVEL_WIDTH,
                    y <= LEVEL_HEIGHT,
                    unknown_before(level_bytes@, store, x * LEVEL_HEIGHT + y) is None,
                    is_column_of(column@, level_bytes@, store, x as int, y as int),
                    in_range == cell_tiles_below(
                        level_bytes@,
                        store,
                        tile_count,
                        x * LEVEL_HEIGHT + y,
                    ),
                decreases LEVEL_HEIGHT - y,
            {
                let symbol = level_bytes[y * LEVEL_STRIDE + x] as char;
                let ghost k = x * LEVEL_HEIGHT + y;
                assert(symbol == symbol_of_cell(level_bytes@, k as int));
                match store.resolve(symbol) {
                    Ok(entity) => {
                        let ghost was = in_range;
                        if entity.tile_index >= tile_count {
                            in_range = false;
                        }
                        proof {
                            let model = store.entity_of(symbol_of_cell(level_bytes@, k as int));
                            assert(entity@ == model);
                            if was && entity.tile_index < tile_count {
                                assert forall|j: int| 0 <= j < k + 1 implies (#[trigger] store.entity_of(
                                    symbol_of_cell(level_bytes@, j),
                                )).tile_index < tile_count by {
                                    if j == k {
                                        assert(model.tile_index < tile_count);
                                    }
                                }
                            }
                        }
                        column.push(entity);
                    },
                    Err(e) => {
                        proof {
                            assert(unknown_before(level_bytes@, store, k + 1) == Some(symbol));
                            lemma_unknown_stays(level_bytes@, store, k + 1, LEVEL_CELLS as int);
                        }
                        return Err(e);
                    },
                }
                y += 1;
            }
            entities.push(column);
            x += 1;
        }
        Ok((entities, in_range))
    }

    /// Places the player, the masks and the treasure of an item resource.
    fn place_items(items: &[u8]) -> (r: (Player, Vec<Mask>, Treasure))
        requires
            items@.len() == LEVEL_BYTES,
        ensures
            items_placed(r.0, r.1@, r.2, items@, LEVEL_CELLS as int),
    {
        let mut player = Player::new();
        let mut treasure = Treasure::new();
        let mut masks: Vec<Mask> = Vec::new();
        assert(mask_models(masks@) =~= Seq::<MaskModel>::empty());
        let mut x: usize = 0;
        while x < LEVEL_WIDTH
            invariant
                items@.len() == LEVEL_BYTES,
                x <= LEVEL_WIDTH,
                items_placed(player, masks@, treasure, items@, x * LEVEL_HEIGHT),
            decreases LEVEL_WIDTH - x,
        {
            let mut y: usize = 0;
            while y < LEVEL_HEIGHT
                invariant
                    items@.len() == LEVEL_BYTES,
                    x < LEVEL_WIDTH,
                    y <= LEVEL_HEIGHT,
                    items_placed(player, masks@, treasure, items@, x * LEVEL_HEIGHT + y),
                decreases LEVEL_HEIGHT - y,
            {
                let symbol = items[y * LEVEL_STRIDE + x] as char;
                let pos = Vec2::new((x * 16) as i32, (y * 16) as i32);
                let ghost k = x * LEVEL_HEIGHT + y;
                assert(symbol == symbol_of_cell(items@, k as int));
                assert(pos == position_of_cell(k as int));
                let ghost before = masks@;
                if symbol == 'R' || symbol == 'G' || symbol == 'B' {
                    let color: usize = if symbol == 'R' {
                        0
                    } else if symbol == 'G' {
                        1
                    } else {
                        2
                    };
                    let mut mask = Mask::new_from_color_id(color);
                    mask.sprite.pos = pos;
                    masks.push(mask);
                    assert(mask_models(masks@) =~= mask_models(before).push(MaskModel { pos, color }));
                } else if symbol == 'P' {
                    player.sprite.pos = pos;
                } else if symbol == 'T' {
                    treasure.sprite.pos = pos;
                }
                y += 1;
            }
            x += 1;
        }
        (player, masks, treasure)
    }

    /// Builds a level from its terrain resource and its item resource.
    /// Every symbol of the terrain must have been loaded into `store`, and
    /// an atlas of `tile_count` tiles must hold every tile that is drawn.
    pub fn new_from_bytes(
        level_bytes: &[u8],
        items_bytes: &[u8],
        store: &EntityStore,
        tile_count: usize,
    ) -> (r: Result<Level, LevelError>)
        ensures
            level_bytes@.len() != LEVEL_BYTES || items_bytes@.len() != LEVEL_BYTES ==> r == Err::<
                Level,
                LevelError,
            >(LevelError::Decode(DecodeError::BadLevelSize)),
            level_bytes@.len() == LEVEL_BYTES && items_bytes@.len() == LEVEL_BYTES ==> (
            match unknown_before(level_bytes@, store, LEVEL_CELLS as int) {
                Some(symbol) => r == Err::<Level, LevelError>(
                    LevelError::UnknownSymbol(UnknownSymbolError { symbol }),
                ),
                None => if tiles_in_range(level_bytes@, store, tile_count) {
                    r is Ok && r->Ok_0.loaded_from(level_bytes@, items_bytes@, store)
                } else {
                    r == Err::<Level, LevelError>(LevelError::Decode(DecodeError::TileOutOfRange))
                },
            }),
    {
        if level_bytes.len() != LEVEL_BYTES || items_bytes.len() != LEVEL_BYTES {
            return Err(LevelError::Decode(DecodeError::BadLevelSize));
        }
        let (entities, in_range) = match Self::load_terrain(level_bytes, store, tile_count) {
            Ok(loaded) => loaded,
            Err(e) => {
                return Err(LevelError::UnknownSymbol(e));
            },
        };
        if !in_range || tile_count == 0 {
            return Err(LevelError::Decode(DecodeError::TileOutOfRange));
        }
        let (player, masks, treasure) = Self::place_items(items_bytes);
        let sprite = Sprite::new(entities);
        let level = Level { sprite, player, masks, treasure };
        Ok(level)
    }

    /// The wall cells that `sprite` would overlap after moving by
    /// `move_dir`, or `None` where it would overlap none.
    pub fn collides(&self, sprite: &Sprite, move_dir: Vec2) -> (r: Option<Vec<Entity>>)
        requires
            self.sprite.wf(),
        ensures
            r matches Some(entities) ==> entities@.len() > 0 && models(entities@) == collisions(
                &self.sprite,
                moved_bounds(sprite, move_dir),
            ),
            r is None ==> collisions(&self.sprite, moved_bounds(sprite, move_dir)).len() == 0,
    {
        let entities = query(&self.sprite, sprite, move_dir);
        if entities.len() == 0 {
            None
        } else {
            Some(entities)
        }
    }

    /// Whether the player has reached the treasure: their boxes overlap.
    pub fn goal_reached(&self) -> (r: bool)
        ensures
            r == self.reaches_goal(),
    {
        self.player.sprite.collides(&self.treasure.sprite)
    }

    /// Whether the player may move by `move_dir`: it would overlap no wall
    /// cell, or its mask opens every wall cell that it would overlap.
    pub open spec fn may_move(&self, move_dir: Vec2) -> bool {
        passage_permitted(
            self.player.has_mask,
            self.player.mask_color,
            collisions(&self.sprite, moved_bounds(&self.player.sprite, move_dir)),
        )
    }

    /// Whether `self` is what a move attempt by `move_dir` makes of
    /// `before`: the player has moved if it may, and nothing else has changed.
    pub open spec fn follows_move(&self, before: Level, move_dir: Vec2) -> bool {
        &&& self.sprite == before.sprite
        &&& self.masks == before.masks
        &&& self.treasure == before.treasure
        &&& self.player.has_mask == before.player.has_mask
        &&& self.player.mask_color == before.player.mask_color
        &&& self.player.sprite.entities == before.player.sprite.entities
        &&& self.player.sprite.pos == if before.may_move(move_dir) {
            before.player.sprite.pos.plus(move_dir)
        } else {
            before.player.sprite.pos
        }
    }

    /// Moves the player by `move_dir` if the terrain lets it pass; a move
    /// that is not permitted is dropped. Returns whether the player moved.
    pub fn try_move(&mut self, move_dir: Vec2) -> (moved: bool)
        requires
            old(self).sprite.wf(),
            old(self).player.sprite.pos.can_add(move_dir),
        ensures
            moved == old(self).may_move(move_dir),
            final(self).follows_move(*old(self), move_dir),
    {
        let permitted = match self.collides(&self.player.sprite, move_dir) {
            Some(entities) => can_pass(self.player.has_mask, self.player.mask_color, &entities),
            None => true,
        };
        if permitted {
            self.player.sprite.pos = self.player.sprite.pos + move_dir;
        }
        permitted
    }

    /// Whether the box of the player overlaps that of the mask at `index`.
    pub open spec fn touches(&self, index: int) -> bool {
        rects_overlap(self.player.sprite.bounds(), self.masks@[index].sprite.bounds())
    }

    /// The first of the first `n` masks that the player touches.
    pub open spec fn first_touched(&self, n: int) -> Option<int>
        decreases n,
    {
        if n <= 0 {
            None
        } else {
            match self.first_touched(n - 1) {
                Some(index) => Some(index),
                None => if self.touches(n - 1) {
                    Some(n - 1)
                } else {
                    None
                },
            }
        }
    }

    /// The mask that an action picks up: the first mask in the world that
    /// the player touches.
    pub open spec fn picked(&self) -> Option<int> {
        self.first_touched(self.masks@.len() as int)
    }

    /// The masks that stay in the world when an action picks one up.
    pub open spec fn kept(&self) -> Seq<Mask> {
        match self.picked() {
            Some(index) => self.masks@.remove(index),
            None => self.masks@,
        }
    }

    /// Whether `self` is what an action makes of `before`.
    pub open spec fn follows_action(&self, before: Level) -> bool {
        &&& self.sprite == before.sprite
        &&& self.treasure == before.treasure
        &&& self.player.sprite == before.player.sprite
        &&& self.player.state() == match before.picked() {
            Some(index) => MaskState::Masked(before.masks@[index].mask_color),
            None => MaskState::Unmasked,
        }
        &&& match before.player.state() {
            MaskState::Unmasked => self.masks@ == before.kept(),
            MaskState::Masked(color) => {
                &&& self.masks@.len() == before.kept().len() + 1
                &&& self.masks@.drop_last() == before.kept()
                &&& self.masks@.last()@ == (MaskModel { pos: before.player.sprite.pos, color })
                &&& self.masks@.last().sprite.is_token()
            },
        }
    }

    /// Whether the box of the player overlaps that of the treasure.
    pub open spec fn reaches_goal(&self) -> bool {
        rects_overlap(self.player.sprite.bounds(), self.treasure.sprite.bounds())
    }

    /// The action of the player: the carried mask, if there is one, is taken
    /// off and laid down where the player stands, and the first mask of the
    /// world that the player touches is put on. The mask that is laid down
    /// joins the world after the search, so it is not picked up again in
    /// the same action.
    pub fn interact(&mut self)
        ensures
            final(self).follows_action(*old(self)),
    {
        let dropped = self.player.drop_mask();
        let mut found: Option<usize> = None;
        let mut i: usize = 0;
        while i < self.masks.len() && found.is_none()
            invariant
                i <= self.masks@.len(),
                self.masks == old(self).masks,
                self.player.sprite == old(self).player.sprite,
                found is None ==> old(self).first_touched(i as int) is None,
                found matches Some(index) ==> index < self.masks@.len(),
                found matches Some(index) ==> old(self).picked() == Some(index as int),
            decreases self.masks@.len() - i + if found is None { 1int } else { 0int },
        {
            if self.player.sprite.collides(&self.masks[i].sprite) {
                found = Some(i);
                proof {
                    assert(old(self).first_touched(i + 1) == Some(i as int));
                    lemma_first_touched_stays(old(self), i + 1, self.masks@.len() as int);
                }
            } else {
                i += 1;
            }
        }
        match found {
            Some(index) => {
                let mask = self.masks.remove(index);
                self.player.take_mask(&mask);
            },
            None => {},
        }
        match dropped {
            Some(mut mask) => {
                mask.sprite.pos = self.player.sprite.pos;
                let ghost before = self.masks@;
                self.masks.push(mask);
                assert(self.masks@.drop_last() =~= before);
            },
            None => {},
        }
    }

    /// The canvas after the first `n` masks of the world have been
    /// composited onto `grid`, in order.
    pub open spec fn with_masks(&self, grid: Grid, tile_set: &TileSet, n: int) -> Grid
        decreases n,
    {
        if n <= 0 {
            grid
        } else {
            painted(self.with_masks(grid, tile_set, n - 1), self.masks@[n - 1].sprite.layer(tile_set))
        }
    }

    /// The canvas after the level has been composited onto `grid`: the
    /// terrain first, then the masks, then the treasure, then the player.
    pub open spec fn rendered(&self, grid: Grid, tile_set: &TileSet) -> Grid {
        painted(
            painted(
                self.with_masks(
                    painted(grid, self.sprite.layer(tile_set)),
                    tile_set,
                    self.masks@.len() as int,
                ),
                self.treasure.sprite.layer(tile_set),
            ),
            self.player.sprite.layer(tile_set),
        )
    }

    /// Whether the level can be drawn with `tile_set`: every sprite is well
    /// formed and `tile_set` holds every tile.
    pub fn can_draw(&self, tile_set: &TileSet) -> (r: bool)
        ensures
            r == (self.wf() && self.fits(tile_set)),
    {
        if !(self.sprite.is_well_formed() && self.player.sprite.is_well_formed()
            && self.treasure.sprite.is_well_formed()) {
            return false;
        }
        let mut i: usize = 0;
        while i < self.masks.len()
            invariant
                i <= self.masks@.len(),
                forall|j: int| 0 <= j < i ==> (#[trigger] self.masks@[j]).sprite.wf(),
            decreases self.masks@.len() - i,
        {
            if !self.masks[i].sprite.is_well_formed() {
                return false;
            }
            i += 1;
        }
        if !(self.sprite.fits_tiles(tile_set) && self.player.sprite.fits_tiles(tile_set)
            && self.treasure.sprite.fits_tiles(tile_set)) {
            return false;
        }
        let mut i: usize = 0;
        while i < self.masks.len()
            invariant
                self.wf(),
                i <= self.masks@.len(),
                forall|j: int| 0 <= j < i ==> (#[trigger] self.masks@[j]).sprite.fits(tile_set),
            decreases self.masks@.len() - i,
        {
            if !self.masks[i].sprite.fits_tiles(tile_set) {
                return false;
            }
            i += 1;
        }
        true
    }

    /// Composites the level onto the canvas: the terrain first, then the
    /// masks, then the treasure, then the player, so that what is drawn
    /// later covers what was drawn before.
    pub fn draw(&self, tile_set: &TileSet, vfb: &mut VirtualFrameBuffer)
        requires
            self.wf(),
            self.fits(tile_set),
        ensures
            final(vfb)@ == self.rendered(old(vfb)@, tile_set),
    {
        self.sprite.paint(tile_set, vfb);
        let ghost base = vfb@;
        let mut i: usize = 0;
        while i < self.masks.len()
            invariant
                self.wf(),
                self.fits(tile_set),
                i <= self.masks@.len(),
                vfb@ == self.with_masks(base, tile_set, i as int),
            decreases self.masks@.len() - i,
        {
            self.masks[i].sprite.paint(tile_set, vfb);
            i += 1;
        }
        self.treasure.sprite.paint(tile_set, vfb);
        self.player.sprite.paint(tile_set, vfb);
    }

    /// The symbols of a level resource that still have to be loaded into
    /// `store` before the level can be built: each once, in the order in
    /// which they are first met.
    pub fn missing_symbols(level_bytes: &[u8], store: &EntityStore) -> (r: Result<
        Vec<char>,
        DecodeError,
    >)
        ensures
            level_bytes@.len() != LEVEL_BYTES ==> r == Err::<Vec<char>, DecodeError>(
                DecodeError::BadLevelSize,
            ),
            level_bytes@.len() == LEVEL_BYTES ==> r is Ok && r->Ok_0@ == missing_before(
                level_bytes@,
                store,
                LEVEL_CELLS as int,
            ),
    {
        if level_bytes.len() != LEVEL_BYTES {
            return Err(DecodeError::BadLevelSize);
        }
        let mut missing: Vec<char> = Vec::new();
        let mut x: usize = 0;
        while x < LEVEL_WIDTH
            invariant
                level_bytes@.len() == LEVEL_BYTES,
                x <= LEVEL_WIDTH,
                missing@ == missing_before(level_bytes@, store, x * LEVEL_HEIGHT),
            decreases LEVEL_WIDTH - x,
        {
            let mut y: usize = 0;
            while y < LEVEL_HEIGHT
                invariant
                    level_bytes@.len() == LEVEL_BYTES,
                    x < LEVEL_WIDTH,
                    y <= LEVEL_HEIGHT,
                    missing@ == missing_before(level_bytes@, store, x * LEVEL_HEIGHT + y),
                decreases LEVEL_HEIGHT - y,
            {
                let symbol = level_bytes[y * LEVEL_STRIDE + x] as char;
                assert(symbol == symbol_of_cell(level_bytes@, x * LEVEL_HEIGHT + y));
                if !store.contains(symbol) && !holds_symbol(&missing, symbol) {
                    missing.push(symbol);
                }
                y += 1;
            }
            x += 1;
        }
        Ok(missing)
    }

    /// Name of the terrain resource of the level `level_name`.
    pub fn file_name(level_name: &str) -> (r: String)
        ensures
            r@ == terrain_name(level_name@),
    {
        String::from_str(level_name).concat(".lvl")
    }

    /// Name of the item resource of the level `level_name`.
    pub fn items_file_name(level_name: &str) -> (r: String)
        ensures
            r@ == items_name(level_name@),
    {
        String::from_str(level_name).concat(".lvl.items")
    }

    /// Whether `r` and `after` are what loading the level `level_name`
    /// makes of the resources and of the store `before`. A resource that
    /// has not been read is named in the error. Where both level resources
    /// are there, the entities of the symbols that `before` lacks are
    /// loaded in the order in which the level holds them, up to the first
    /// one that fails; where none fails, the level is built.
    pub open spec fn loaded_by_name(
        r: Result<Level, LoadError>,
        after: &EntityStore,
        resources: &Resources,
        before: &EntityStore,
        tile_count: usize,
        level_name: Seq<char>,
    ) -> bool {
        let terrain = resources.content(terrain_name(level_name), Some("levels"@));
        let items = resources.content(items_name(level_name), Some("levels"@));
        if terrain is None {
            &&& *after == *before
            &&& r is Err
            &&& r->Err_0@ == LoadFailure::Missing(level_resource(terrain_name(level_name)))
        } else if items is None {
            &&& *after == *before
            &&& r is Err
            &&& r->Err_0@ == LoadFailure::Missing(level_resource(items_name(level_name)))
        } else if terrain->Some_0.len() != LEVEL_BYTES || items->Some_0.len() != LEVEL_BYTES {
            &&& *after == *before
            &&& r is Err
            &&& r->Err_0@ == LoadFailure::Decode(DecodeError::BadLevelSize)
        } else {
            let missing = missing_before(terrain->Some_0, before, LEVEL_CELLS as int);
            let loaded = loaded_count(resources, missing, missing.len() as int);
            &&& extended_by(after, before, resources, missing.take(loaded))
            &&& if loaded < missing.len() {
                &&& r is Err
                &&& entity_of_symbol(resources, missing[loaded]) == Err::<EntityModel, LoadFailure>(
                    r->Err_0@,
                )
            } else if tiles_in_range(terrain->Some_0, after, tile_count) {
                r is Ok && r->Ok_0.loaded_from(terrain->Some_0, items->Some_0, after)
            } else {
                r is Err && r->Err_0@ == LoadFailure::Decode(DecodeError::TileOutOfRange)
            }
        }
    }

    /// Loads the level `level_name` from the resources that have been read.
    /// The entities of the grid symbols that `store` does not know yet are
    /// loaded into it, each from the descriptor that is named after the
    /// symbol.
    pub fn new_from_name(
        resources: &Resources,
        store: &mut EntityStore,
        tile_count: usize,
        level_name: &str,
    ) -> (r: Result<Level, LoadError>)
        ensures
            Self::loaded_by_name(r, final(store), resources, old(store), tile_count, level_name@),
    {
        let terrain_file = Self::file_name(level_name);
        let terrain = match resources.read_file(terrain_file.as_str(), Some("levels")) {
            Ok(bytes) => bytes,
            Err(e) => {
                return Err(LoadError::Missing(e));
            },
        };
        let items_file = Self::items_file_name(level_name);
        let items = match resources.read_file(items_file.as_str(), Some("levels")) {
            Ok(bytes) => bytes,
            Err(e) => {
                return Err(LoadError::Missing(e));
            },
        };
        if terrain.len() != LEVEL_BYTES || items.len() != LEVEL_BYTES {
            return Err(LoadError::Decode(DecodeError::BadLevelSize));
        }
        let missing = match Self::missing_symbols(terrain.as_slice(), store) {
            Ok(missing) => missing,
            Err(e) => {
                return Err(LoadError::Decode(e));
            },
        };
        proof {
            lemma_missing_are_new(terrain@, old(store), LEVEL_CELLS as int);
        }
        let mut i: usize = 0;
        while i < missing.len()
            invariant
                i <= missing@.len(),
                resources.content(terrain_name(level_name@), Some("levels"@)) == Some(terrain@),
                resources.content(items_name(level_name@), Some("levels"@)) == Some(items@),
                terrain@.len() == LEVEL_BYTES,
                items@.len() == LEVEL_BYTES,
                missing@ == missing_before(terrain@, old(store), LEVEL_CELLS as int),
                forall|a: int| 0 <= a < missing@.len() ==> !old(store).knows(#[trigger] missing@[a]),
                forall|a: int, b: int| 0 <= a < b < missing@.len() ==> missing@[a] != missing@[b],
                loaded_count(resources, missing@, i as int) == i,
                extended_by(store, old(store), resources, missing@.take(i as int)),
            decreases missing@.len() - i,
        {
            let symbol = missing[i];
            let id = char_text(symbol);
            let ghost stored = *store;
            let ghost loaded = missing@.take(i as int);
            match Entity::new_from_id(resources, id.as_str()) {
                Ok(entity) => {
                    proof {
                        assert(!loaded.contains(symbol));
                    }
                    store.insert(symbol, entity);
                    proof {
                        let next = missing@.take(i + 1);
                        assert(next =~= loaded.push(symbol));
                        assert forall|c: char| #[trigger] store.knows(c) <==> old(store).knows(c)
                            || next.contains(c) by {
                            if c == symbol {
                                assert(next[i as int] == symbol);
                            } else {
                                assert(store.knows(c) == stored.knows(c));
                                if loaded.contains(c) {
                                    let k = choose|k: int| 0 <= k < loaded.len() && loaded[k] == c;
                                    assert(next[k] == c);
                                }
                                if next.contains(c) {
                                    let k = choose|k: int| 0 <= k < next.len() && next[k] == c;
                                    assert(loaded[k] == c);
                                }
                            }
                        }
                        assert forall|c: char| old(store).knows(c) implies #[trigger] store.entity_of(c)
                            == old(store).entity_of(c) by {
                            assert(stored.knows(c));
                            assert(c != symbol);
                        }
                        assert forall|k: int| 0 <= k < next.len() implies entity_of_symbol(
                            resources,
                            #[trigger] next[k],
                        ) == Ok::<EntityModel, LoadFailure>(store.entity_of(next[k])) by {
                            if k < i {
                                assert(loaded[k] == next[k]);
                                assert(stored.knows(next[k]));
                                assert(next[k] != symbol);
                            }
                        }
                    }
                },
                Err(e) => {
                    proof {
                        lemma_loaded_count_stays(resources, missing@, i + 1, missing@.len() as int);
                    }
                    return Err(e);
                },
            }
            i += 1;
        }
        proof {
            assert(missing@.take(i as int) =~= missing@);
            lemma_missing_symbols_suffice(terrain@, old(store), store, LEVEL_CELLS as int);
        }
        match Self::new_from_bytes(terrain.as_slice(), items.as_slice(), store, tile_count) {
            Ok(level) => Ok(level),
            Err(LevelError::Decode(e)) => Err(LoadError::Decode(e)),
            Err(LevelError::UnknownSymbol(e)) => Err(LoadError::UnknownSymbol(e)),
        }
    }
}

} // verus!
