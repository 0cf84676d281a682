//! Sprites: positioned grids of cell entities, and how they are composited
//! onto the canvas through the tile atlas.

use crate::canvas::{cleared, in_grid, Grid, VirtualFrameBuffer};
use crate::entity::{Entity, EntityModel};
use crate::geometry::{rects_overlap, spans_overlap, Rect};
use crate::math::vec2::Vec2;
use crate::math::vec4::Color4;
use crate::tiles::{Tile, TileSet};
use vstd::prelude::*;

verus! {

/// A rectangle of pixels placed on the canvas: `image[lx][ly]` is shown at
/// the canvas position `(x + lx, y + ly)`.
pub struct Layer {
    pub x: int,
    pub y: int,
    pub image: Grid,
}

/// The rectangle of `width` by `height` pixels whose pixel in column `x` and
/// row `y` is `pixel(x, y)`.
pub open spec fn image_of(width: nat, height: nat, pixel: spec_fn(int, int) -> Color4) -> Grid {
    Seq::new(width, |x: int| Seq::new(height, |y: int| pixel(x, y)))
}

/// The layer of `width` by `height` pixels at `pos` whose pixel in column
/// `x` and row `y` is `pixel(x, y)`.
pub open spec fn layer_at(pos: Vec2, width: nat, height: nat, pixel: spec_fn(int, int) -> Color4) -> Layer {
    Layer { x: pos.x as int, y: pos.y as int, image: image_of(width, height, pixel) }
}

/// Whether two grids have the same columns of the same lengths.
pub open spec fn same_shape(a: Grid, b: Grid) -> bool {
    &&& a.len() == b.len()
    &&& forall|x: int| 0 <= x < a.len() ==> (#[trigger] a[x]).len() == b[x].len()
}

/// Whether `layer` covers the canvas position `(cx, cy)`.
pub open spec fn covers(layer: Layer, cx: int, cy: int) -> bool {
    in_grid(layer.image, cx - layer.x, cy - layer.y)
}

/// The colour that `layer` shows at the canvas position `(cx, cy)`.
pub open spec fn shown(layer: Layer, cx: int, cy: int) -> Color4 {
    layer.image[cx - layer.x][cy - layer.y]
}

/// Whether `layer` has an opaque pixel at the canvas position `(cx, cy)`.
pub open spec fn opaque_at(layer: Layer, cx: int, cy: int) -> bool {
    covers(layer, cx, cy) && shown(layer, cx, cy).w != 0
}

/// The colour at `(cx, cy)` after `layer` has been composited onto `grid`:
/// the colour of the layer where it has an opaque pixel, the colour of
/// `grid` everywhere else.
pub open spec fn paint_at(grid: Grid, layer: Layer, cx: int, cy: int) -> Color4 {
    if opaque_at(layer, cx, cy) {
        shown(layer, cx, cy)
    } else {
        grid[cx][cy]
    }
}

/// The grid after `layer` has been composited onto it.
pub open spec fn painted(grid: Grid, layer: Layer) -> Grid {
    Seq::new(grid.len(), |cx: int| Seq::new(grid[cx].len(), |cy: int| paint_at(grid, layer, cx, cy)))
}

/// Something that can be composited onto the canvas: a rectangle of pixels
/// at a position, each pixel opaque or transparent.
pub trait DrawFramebuffer {
    /// Whether the extent in pixels can be computed.
    spec fn drawable(&self) -> bool;

    /// Whether `tile_set` holds every tile that the pixels are taken from.
    spec fn fits(&self, tile_set: &TileSet) -> bool;

    /// Width in pixels.
    spec fn spec_width(&self) -> nat;

    /// Height in pixels.
    spec fn spec_height(&self) -> nat;

    /// Position of the top left pixel on the canvas.
    spec fn spec_pos(&self) -> Vec2;

    /// Colour of the pixel in column `x` and row `y` of the rectangle.
    spec fn spec_pixel(&self, tile_set: &TileSet, x: int, y: int) -> Color4;

    fn width(&self) -> (w: usize)
        requires
            self.drawable(),
        ensures
            w == self.spec_width(),
    ;

    fn height(&self) -> (h: usize)
        requires
            self.drawable(),
        ensures
            h == self.spec_height(),
    ;

    fn pos(&self) -> (p: Vec2)
        ensures
            p == self.spec_pos(),
    ;

    fn pixel(&self, tile_set: &TileSet, x: usize, y: usize) -> (c: Color4)
        requires
            self.drawable(),
            self.fits(tile_set),
            x < self.spec_width(),
            y < self.spec_height(),
        ensures
            c == self.spec_pixel(tile_set, x as int, y as int),
    ;

    /// Composites the rectangle onto the canvas: every opaque pixel that
    /// falls on a cell of the canvas is written there; transparent pixels
    /// and pixels off the canvas write nothing.
    fn draw(&self, tile_set: &TileSet, vfb: &mut VirtualFrameBuffer)
        requires
            self.drawable(),
            self.fits(tile_set),
        ensures
            final(vfb)@ == painted(
                old(vfb)@,
                layer_at(
                    self.spec_pos(),
                    self.spec_width(),
                    self.spec_height(),
                    |x: int, y: int| self.spec_pixel(tile_set, x, y),
                ),
            ),
    {
        let p = self.pos();
        let w = self.width();
        let h = self.height();
        let ghost before = vfb@;
        let ghost layer = layer_at(
            self.spec_pos(),
            self.spec_width(),
            self.spec_height(),
            |x: int, y: int| self.spec_pixel(tile_set, x, y),
        );
        let mut x: usize = 0;
        while x < w
            invariant
                self.drawable(),
                self.fits(tile_set),
                p == self.spec_pos(),
                w == self.spec_width(),
                h == self.spec_height(),
                layer.x == p.x,
                layer.y == p.y,
                layer.image == image_of(
                    self.spec_width(),
                    self.spec_height(),
                    |x: int, y: int| self.spec_pixel(tile_set, x, y),
                ),
                x <= w,
                same_shape(vfb@, before),
                forall|cx: int, cy: int|
                    in_grid(before, cx, cy) ==> #[trigger] vfb@[cx][cy] == if 0 <= cx - p.x < x {
                        paint_at(before, layer, cx, cy)
                    } else {
                        before[cx][cy]
                    },
            decreases w - x,
        {
            let mut y: usize = 0;
            while y < h
                invariant
                    self.drawable(),
                    self.fits(tile_set),
                    p == self.spec_pos(),
                    w == self.spec_width(),
                    h == self.spec_height(),
                    layer.x == p.x,
                    layer.y == p.y,
                    layer.image == image_of(
                        self.spec_width(),
                        self.spec_height(),
                        |x: int, y: int| self.spec_pixel(tile_set, x, y),
                    ),
                    x < w,
                    y <= h,
                    same_shape(vfb@, before),
                    forall|cx: int, cy: int|
                        in_grid(before, cx, cy) ==> #[trigger] vfb@[cx][cy] == if 0 <= cx - p.x < x
                            || (cx - p.x == x && cy - p.y < y) {
                            paint_at(before, layer, cx, cy)
                        } else {
                            before[cx][cy]
                        },
                decreases h - y,
            {
                let ghost mid = vfb@;
                let fx: i128 = p.x as i128 + x as i128;
                let fy: i128 = p.y as i128 + y as i128;
                if 0 <= fx && fx < vfb.width() as i128 && 0 <= fy && fy < vfb.column_len(
                    fx as usize,
                ) as i128 {
                    let color = self.pixel(tile_set, x, y);
                    if color.w != 0 {
                        vfb.put(fx as usize, fy as usize, color);
                    }
                }
                proof {
                    assert(layer.image[x as int][y as int] == self.spec_pixel(
                        tile_set,
                        x as int,
                        y as int,
                    ));
                    assert forall|cx: int, cy: int| in_grid(before, cx, cy) implies #[trigger] vfb@[cx][cy]
                        == if 0 <= cx - p.x < x || (cx - p.x == x && cy - p.y < y + 1) {
                        paint_at(before, layer, cx, cy)
                    } else {
                        before[cx][cy]
                    } by {
                        assert(in_grid(mid, cx, cy));
                        if cx - p.x == x && cy - p.y == y {
                            assert(cx == fx && cy == fy);
                            assert(covers(layer, cx, cy));
                            assert(shown(layer, cx, cy) == self.spec_pixel(tile_set, x as int, y as int));
                            assert(mid[cx][cy] == before[cx][cy]);
                            if shown(layer, cx, cy).w != 0 {
                                assert(vfb@[cx][cy] == shown(layer, cx, cy));
                            } else {
                                assert(vfb@[cx][cy] == mid[cx][cy]);
                            }
                        } else {
                            assert(vfb@[cx][cy] == mid[cx][cy]);
                            if 0 <= cx - p.x < x || (cx - p.x == x && cy - p.y < y) {
                                assert(mid[cx][cy] == paint_at(before, layer, cx, cy));
                            } else {
                                assert(mid[cx][cy] == before[cx][cy]);
                            }
                        }
                    }
                }
                y += 1;
            }
            x += 1;
        }
        assert(vfb@ =~~= painted(before, layer));
    }
}

/// A positioned grid of cell entities: `entities[cx][cy]` is the cell in
/// column `cx` and row `cy`, drawn with its top left pixel at
/// `pos + (cx * 16, cy * 16)`.
pub struct Sprite {
    pub pos: Vec2,
    pub entities: Vec<Vec<Entity>>,
}

impl Sprite {
    /// Number of cell columns.
    pub open spec fn cells_x(&self) -> nat {
        self.entities@.len()
    }

    /// Number of cell rows, taken from the first column; zero without columns.
    pub open spec fn cells_y(&self) -> nat {
        if self.entities@.len() > 0 {
            self.entities@[0]@.len()
        } else {
            0
        }
    }

    /// Whether the grid is rectangular and its extent in pixels fits a
    /// machine word.
    pub open spec fn wf(&self) -> bool {
        &&& forall|cx: int|
            0 <= cx < self.entities@.len() ==> (#[trigger] self.entities@[cx])@.len()
                == self.cells_y()
        &&& self.cells_x() * 16 <= usize::MAX
        &&& self.cells_y() * 16 <= usize::MAX
    }

    /// The cell in column `cx` and row `cy`.
    pub open spec fn cell(&self, cx: int, cy: int) -> EntityModel {
        self.entities@[cx]@[cy]@
    }

    /// Whether `(cx, cy)` names a cell of the grid.
    pub open spec fn has_cell(&self, cx: int, cy: int) -> bool {
        0 <= cx < self.cells_x() && 0 <= cy < self.cells_y()
    }

    /// Whether the sprite is that of an actor: one empty cell.
    pub open spec fn is_token(&self) -> bool {
        &&& self.wf()
        &&& self.cells_x() == 1
        &&& self.cells_y() == 1
        &&& self.cell(0, 0) == (EntityModel { tile_index: 0, wall: false, door_colors: Seq::empty() })
    }

    /// The box of pixels that the sprite occupies.
    pub open spec fn bounds(&self) -> Rect {
        Rect {
            x: self.pos.x as int,
            y: self.pos.y as int,
            w: self.cells_x() as int * 16,
            h: self.cells_y() as int * 16,
        }
    }

    /// The sprite as a layer of pixels taken from `tile_set`.
    pub open spec fn layer(&self, tile_set: &TileSet) -> Layer {
        layer_at(
            self.pos,
            self.spec_width(),
            self.spec_height(),
            |x: int, y: int| self.spec_pixel(tile_set, x, y),
        )
    }

    /// A sprite of the given cells at the origin.
    pub fn new(entities: Vec<Vec<Entity>>) -> (r: Sprite)
        ensures
            r.pos == (Vec2 { x: 0, y: 0 }),
            r.entities == entities,
    {
        Sprite { pos: Vec2::new(0, 0), entities }
    }

    /// Number of cell columns.
    pub fn tiles_width(&self) -> (n: usize)
        ensures
            n == self.cells_x(),
    {
        self.entities.len()
    }

    /// Number of cell rows.
    pub fn tiles_height(&self) -> (n: usize)
        ensures
            n == self.cells_y(),
    {
        if self.entities.len() > 0 {
            self.entities[0].len()
        } else {
            0
        }
    }

    /// Whether the grid is rectangular and its extent in pixels fits a
    /// machine word.
    pub fn is_well_formed(&self) -> (r: bool)
        ensures
            r == self.wf(),
    {
        let rows = self.tiles_height();
        if self.entities.len() > usize::MAX / 16 || rows > usize::MAX / 16 {
            return false;
        }
        let mut cx: usize = 0;
        while cx < self.entities.len()
            invariant
                cx <= self.entities@.len(),
                rows == self.cells_y(),
                forall|i: int| 0 <= i < cx ==> (#[trigger] self.entities@[i])@.len() == rows,
            decreases self.entities@.len() - cx,
        {
            if self.entities[cx].len() != rows {
                return false;
            }
            cx += 1;
        }
        true
    }

    /// Whether `tile_set` holds the tile of every cell.
    pub fn fits_tiles(&self, tile_set: &TileSet) -> (r: bool)
        requires
            self.wf(),
        ensures
            r == self.fits(tile_set),
    {
        let count = tile_set.len();
        let rows = self.tiles_height();
        let mut cx: usize = 0;
        while cx < self.entities.len()
            invariant
                self.wf(),
                cx <= self.entities@.len(),
                rows == self.cells_y(),
                count == tile_set.spec_len(),
                forall|i: int, j: int|
                    0 <= i < cx && 0 <= j < rows ==> (#[trigger] self.cell(i, j)).tile_index < count,
            decreases self.entities@.len() - cx,
        {
            let mut cy: usize = 0;
            while cy < rows
                invariant
                    self.wf(),
                    cx < self.entities@.len(),
                    cy <= rows,
                    rows == self.cells_y(),
                    count == tile_set.spec_len(),
                    forall|i: int, j: int|
                        0 <= i < cx && 0 <= j < rows ==> (#[trigger] self.cell(i, j)).tile_index
                            < count,
                    forall|j: int| 0 <= j < cy ==> (#[trigger] self.cell(cx as int, j)).tile_index < count,
                decreases rows - cy,
            {
                if self.entities[cx][cy].tile_index >= count {
                    assert(self.has_cell(cx as int, cy as int));
                    assert(self.cell(cx as int, cy as int).tile_index >= count);
                    return false;
                }
                cy += 1;
            }
            cx += 1;
        }
        true
    }

    /// Composites the sprite onto the canvas.
    pub fn paint(&self, tile_set: &TileSet, vfb: &mut VirtualFrameBuffer)
        requires
            self.wf(),
            self.fits(tile_set),
        ensures
            final(vfb)@ == painted(old(vfb)@, self.layer(tile_set)),
    {
        self.draw(tile_set, vfb);
        proof {
            let drawn = layer_at(
                self.spec_pos(),
                self.spec_width(),
                self.spec_height(),
                |x: int, y: int| self.spec_pixel(tile_set, x, y),
            );
            assert(drawn.image =~~= self.layer(tile_set).image);
        }
    }

    /// Whether the boxes of two sprites overlap.
    pub fn collides(&self, sprite: &Sprite) -> (r: bool)
        ensures
            r == rects_overlap(self.bounds(), sprite.bounds()),
    {
        let ax = self.pos.x as i128;
        let ay = self.pos.y as i128;
        let aw = self.tiles_width() as i128 * 16;
        let ah = self.tiles_height() as i128 * 16;
        let bx = sprite.pos.x as i128;
        let by = sprite.pos.y as i128;
        let bw = sprite.tiles_width() as i128 * 16;
        let bh = sprite.tiles_height() as i128 * 16;
        spans_overlap(ax, ax + aw, bx, bx + bw) && spans_overlap(ay, ay + ah, by, by + bh)
    }
}

impl Default for Sprite {
    /// A sprite of one empty cell at the origin.
    fn default() -> (r: Sprite)
        ensures
            r.wf(),
            r.pos == (Vec2 { x: 0, y: 0 }),
            r.cells_x() == 1,
            r.cells_y() == 1,
            r.cell(0, 0) == (EntityModel { tile_index: 0, wall: false, door_colors: Seq::empty() }),
    {
        let mut column: Vec<Entity> = Vec::new();
        column.push(Entity::default());
        let mut entities: Vec<Vec<Entity>> = Vec::new();
        entities.push(column);
        Sprite { pos: Vec2::new(0, 0), entities }
    }
}

impl DrawFramebuffer for Sprite {
    open spec fn drawable(&self) -> bool {
        self.wf()
    }

    open spec fn fits(&self, tile_set: &TileSet) -> bool {
        forall|cx: int, cy: int|
            self.has_cell(cx, cy) ==> (#[trigger] self.cell(cx, cy)).tile_index < tile_set.spec_len()
    }

    open spec fn spec_width(&self) -> nat {
        self.cells_x() * 16
    }

    open spec fn spec_height(&self) -> nat {
        self.cells_y() * 16
    }

    open spec fn spec_pos(&self) -> Vec2 {
        self.pos
    }

    open spec fn spec_pixel(&self, tile_set: &TileSet, x: int, y: int) -> Color4 {
        tile_set.at(self.cell(x / 16, y / 16).tile_index as int, x % 16, y % 16)
    }

    fn width(&self) -> (w: usize) {
        self.entities.len() * Tile::WIDTH
    }

    fn height(&self) -> (h: usize) {
        self.tiles_height() * Tile::HEIGHT
    }

    fn pos(&self) -> (p: Vec2) {
        self.pos
    }

    fn pixel(&self, tile_set: &TileSet, x: usize, y: usize) -> (c: Color4) {
        let (tile_x, tile_y) = (x / Tile::WIDTH, y / Tile::HEIGHT);
        let (pixel_x, pixel_y) = (x % Tile::WIDTH, y % Tile::HEIGHT);
        assert(self.has_cell(tile_x as int, tile_y as int));
        let entity = &self.entities[tile_x][tile_y];
        assert(entity@ == self.cell(tile_x as int, tile_y as int));
        tile_set.tiles[entity.tile_index].pixels[pixel_x][pixel_y]
    }
}

/// Transparency never overwrites: compositing a layer without an opaque
/// pixel leaves every cell of the canvas as it was.
pub proof fn lemma_transparent_layer_changes_nothing(grid: Grid, layer: Layer)
    requires
        forall|cx: int, cy: int| covers(layer, cx, cy) ==> shown(layer, cx, cy).w == 0,
    ensures
        painted(grid, layer) == grid,
{
    assert(painted(grid, layer) =~~= grid);
}

/// What a layer has written stays when a layer without an opaque pixel is
/// composited after it, wherever that layer is placed.
pub proof fn lemma_transparent_layer_keeps_composite(grid: Grid, first: Layer, second: Layer)
    requires
        forall|cx: int, cy: int| covers(second, cx, cy) ==> shown(second, cx, cy).w == 0,
    ensures
        painted(painted(grid, first), second) == painted(grid, first),
{
    lemma_transparent_layer_changes_nothing(painted(grid, first), second);
}

/// The order of compositing does not matter for layers that cover no
/// common position: either order gives the same canvas.
pub proof fn lemma_disjoint_layers_commute(grid: Grid, a: Layer, b: Layer)
    requires
        forall|cx: int, cy: int| !(covers(a, cx, cy) && covers(b, cx, cy)),
    ensures
        painted(painted(grid, a), b) == painted(painted(grid, b), a),
{
    let ab = painted(painted(grid, a), b);
    let ba = painted(painted(grid, b), a);
    assert forall|cx: int, cy: int| in_grid(grid, cx, cy) implies ab[cx][cy] == ba[cx][cy] by {
        assert(painted(grid, a)[cx][cy] == paint_at(grid, a, cx, cy));
        assert(painted(grid, b)[cx][cy] == paint_at(grid, b, cx, cy));
        assert(ab[cx][cy] == paint_at(painted(grid, a), b, cx, cy));
        assert(ba[cx][cy] == paint_at(painted(grid, b), a, cx, cy));
        assert(!(covers(a, cx, cy) && covers(b, cx, cy)));
    }
    assert(ab =~~= ba);
}

/// What is drawn later covers what was drawn before: where the later of two
/// layers has an opaque pixel on the canvas, the canvas shows that pixel.
pub proof fn lemma_later_layer_wins(grid: Grid, first: Layer, second: Layer, cx: int, cy: int)
    requires
        in_grid(grid, cx, cy),
        opaque_at(second, cx, cy),
    ensures
        painted(painted(grid, first), second)[cx][cy] == shown(second, cx, cy),
{
    assert(painted(grid, first)[cx].len() == grid[cx].len());
}

/// Whether every tile that `sprite` draws is fully transparent.
pub open spec fn fully_transparent(sprite: &Sprite, tile_set: &TileSet) -> bool {
    forall|cx: int, cy: int, px: int, py: int|
        sprite.has_cell(cx, cy) && 0 <= px < 16 && 0 <= py < 16 ==> (#[trigger] tile_set.at(
            sprite.cell(cx, cy).tile_index as int,
            px,
            py,
        )).w == 0
}

/// A sprite covers exactly the positions of its box.
pub proof fn lemma_layer_covers_bounds(sprite: &Sprite, tile_set: &TileSet, cx: int, cy: int)
    ensures
        covers(sprite.layer(tile_set), cx, cy) <==> sprite.bounds().x <= cx < sprite.bounds().x
            + sprite.bounds().w && sprite.bounds().y <= cy < sprite.bounds().y + sprite.bounds().h,
{
    let layer = sprite.layer(tile_set);
    assert(layer.image.len() == sprite.spec_width());
    if 0 <= cx - layer.x < layer.image.len() {
        assert(layer.image[cx - layer.x].len() == sprite.spec_height());
    }
}

/// Transparency never overwrites: compositing a sprite whose tiles are all
/// fully transparent leaves the canvas as it was, whatever was drawn on it
/// before and wherever the sprite stands.
pub proof fn lemma_transparent_sprite_changes_nothing(grid: Grid, sprite: &Sprite, tile_set: &TileSet)
    requires
        fully_transparent(sprite, tile_set),
    ensures
        painted(grid, sprite.layer(tile_set)) == grid,
{
    let layer = sprite.layer(tile_set);
    assert forall|cx: int, cy: int| covers(layer, cx, cy) implies shown(layer, cx, cy).w == 0 by {
        lemma_layer_covers_bounds(sprite, tile_set, cx, cy);
        let lx = cx - layer.x;
        let ly = cy - layer.y;
        assert(shown(layer, cx, cy) == sprite.spec_pixel(tile_set, lx, ly));
        assert(sprite.has_cell(lx / 16, ly / 16));
        assert(tile_set.at(sprite.cell(lx / 16, ly / 16).tile_index as int, lx % 16, ly % 16).w == 0);
    }
    lemma_transparent_layer_changes_nothing(grid, layer);
}

/// The order of compositing does not matter for sprites whose boxes do not
/// overlap: either order gives the same canvas.
pub proof fn lemma_disjoint_sprites_commute(grid: Grid, a: &Sprite, b: &Sprite, tile_set: &TileSet)
    requires
        !rects_overlap(a.bounds(), b.bounds()),
    ensures
        painted(painted(grid, a.layer(tile_set)), b.layer(tile_set)) == painted(
            painted(grid, b.layer(tile_set)),
            a.layer(tile_set),
        ),
{
    assert forall|cx: int, cy: int|
        !(covers(a.layer(tile_set), cx, cy) && covers(b.layer(tile_set), cx, cy)) by {
        lemma_layer_covers_bounds(a, tile_set, cx, cy);
        lemma_layer_covers_bounds(b, tile_set, cx, cy);
    }
    lemma_disjoint_layers_commute(grid, a.layer(tile_set), b.layer(tile_set));
}

/// Repainting in the other order: on a canvas that has been cleared, two
/// sprites whose boxes do not overlap give the same picture in either
/// order.
pub proof fn lemma_repaint_in_other_order(
    grid: Grid,
    clear_color: Color4,
    a: &Sprite,
    b: &Sprite,
    tile_set: &TileSet,
)
    requires
        !rects_overlap(a.bounds(), b.bounds()),
    ensures
        painted(painted(cleared(grid, clear_color), a.layer(tile_set)), b.layer(tile_set))
            == painted(painted(cleared(grid, clear_color), b.layer(tile_set)), a.layer(tile_set)),
{
    lemma_disjoint_sprites_commute(cleared(grid, clear_color), a, b, tile_set);
}

} // verus!
