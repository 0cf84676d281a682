//! The collision query: which wall cells of the terrain a mover would
//! overlap after a displacement, and whether its mask lets it pass them.

use crate::entity::{Entity, EntityModel};
use crate::geometry::{intervals_overlap, rects_overlap, spans_overlap, Rect};
use crate::math::vec2::Vec2;
use crate::sprite::Sprite;
use vstd::prelude::*;

verus! {

/// The box that `mover` would occupy after moving by `move_dir`.
pub open spec fn moved_bounds(mover: &Sprite, move_dir: Vec2) -> Rect {
    Rect {
        x: mover.pos.x + move_dir.x,
        y: mover.pos.y + move_dir.y,
        w: mover.cells_x() as int * 16,
        h: mover.cells_y() as int * 16,
    }
}

/// The box of 16 by 16 pixels of the terrain cell in column `cx` and row `cy`.
pub open spec fn cell_rect(terrain: &Sprite, cx: int, cy: int) -> Rect {
    Rect { x: terrain.pos.x + cx * 16, y: terrain.pos.y + cy * 16, w: 16, h: 16 }
}

/// Whether the terrain cell `(cx, cy)` is a wall whose box overlaps `target`.
pub open spec fn hits(terrain: &Sprite, target: Rect, cx: int, cy: int) -> bool {
    terrain.cell(cx, cy).wall && rects_overlap(target, cell_rect(terrain, cx, cy))
}

/// The wall cells of column `cx` in the rows before `rows` that overlap
/// `target`, from the top down.
pub open spec fn column_hits(terrain: &Sprite, target: Rect, cx: int, rows: int) -> Seq<EntityModel>
    decreases rows,
{
    if rows <= 0 {
        Seq::empty()
    } else if hits(terrain, target, cx, rows - 1) {
        column_hits(terrain, target, cx, rows - 1).push(terrain.cell(cx, rows - 1))
    } else {
        column_hits(terrain, target, cx, rows - 1)
    }
}

/// The wall cells in the columns before `columns` that overlap `target`,
/// column by column from the left, each column from the top down.
pub open spec fn grid_hits(terrain: &Sprite, target: Rect, columns: int) -> Seq<EntityModel>
    decreases columns,
{
    if columns <= 0 {
        Seq::empty()
    } else {
        grid_hits(terrain, target, columns - 1) + column_hits(
            terrain,
            target,
            columns - 1,
            terrain.cells_y() as int,
        )
    }
}

/// Every wall cell of the terrain that overlaps `target`.
pub open spec fn collisions(terrain: &Sprite, target: Rect) -> Seq<EntityModel> {
    grid_hits(terrain, target, terrain.cells_x() as int)
}

/// The cells that a list of entities stands for.
pub open spec fn models(entities: Seq<Entity>) -> Seq<EntityModel> {
    entities.map_values(|e: Entity| e@)
}

/// Whether a mover may pass the wall cells `cells`: there are none, or it
/// carries a mask whose colour opens every one of them.
pub open spec fn passage_permitted(has_mask: bool, mask_color: usize, cells: Seq<EntityModel>) -> bool {
    cells.len() == 0 || (has_mask && forall|i: int|
        0 <= i < cells.len() ==> (#[trigger] cells[i]).opens_for(mask_color))
}

/// Rows `from` to `to` of a column add nothing where none of them is hit.
pub proof fn lemma_column_hits_skip(terrain: &Sprite, target: Rect, cx: int, from: int, to: int)
    requires
        0 <= from <= to,
        forall|cy: int| from <= cy < to ==> !#[trigger] hits(terrain, target, cx, cy),
    ensures
        column_hits(terrain, target, cx, to) == column_hits(terrain, target, cx, from),
    decreases to - from,
{
    if from < to {
        lemma_column_hits_skip(terrain, target, cx, from, to - 1);
    }
}

/// Columns `from` to `to` add nothing where none of their cells is hit.
pub proof fn lemma_grid_hits_skip(terrain: &Sprite, target: Rect, from: int, to: int)
    requires
        0 <= from <= to,
        forall|cx: int, cy: int|
            from <= cx < to && 0 <= cy < terrain.cells_y() ==> !#[trigger] hits(
                terrain,
                target,
                cx,
                cy,
            ),
    ensures
        grid_hits(terrain, target, to) == grid_hits(terrain, target, from),
    decreases to - from,
{
    if from < to {
        lemma_grid_hits_skip(terrain, target, from, to - 1);
        lemma_column_hits_skip(terrain, target, to - 1, 0, terrain.cells_y() as int);
        assert(grid_hits(terrain, target, to - 1) + Seq::<EntityModel>::empty() =~= grid_hits(
            terrain,
            target,
            to - 1,
        ));
    }
}

/// The quotient of `v` by 16, rounded down.
fn floor_div_16(v: i128) -> (q: i128)
    requires
        -0x1_0000_0000_0000_0000_0000 <= v <= 0x1_0000_0000_0000_0000_0000,
    ensures
        q == v / 16,
{
    if v >= 0 {
        v / 16
    } else {
        -((15 - v) / 16)
    }
}

/// `v` held to the range from 0 to `limit`.
fn clamp_index(v: i128, limit: usize) -> (r: usize)
    ensures
        r == if v < 0 {
            0
        } else if v > limit {
            limit as int
        } else {
            v as int
        },
{
    if v < 0 {
        0
    } else if v > limit as i128 {
        limit
    } else {
        v as usize
    }
}

/// The wall cells of `terrain` that `mover` would overlap after moving by
/// `move_dir`. Only the cells around the mover's new box are looked at; the
/// result is the same as if every cell had been.
pub fn query(terrain: &Sprite, mover: &Sprite, move_dir: Vec2) -> (r: Vec<Entity>)
    requires
        terrain.wf(),
    ensures
        models(r@) == collisions(terrain, moved_bounds(mover, move_dir)),
{
    let ghost target = moved_bounds(mover, move_dir);
    let columns = terrain.tiles_width();
    let rows = terrain.tiles_height();
    let origin_x = terrain.pos.x as i128;
    let origin_y = terrain.pos.y as i128;
    let box_x = mover.pos.x as i128 + move_dir.x as i128;
    let box_y = mover.pos.y as i128 + move_dir.y as i128;
    let box_w = mover.tiles_width() as i128 * 16;
    let box_h = mover.tiles_height() as i128 * 16;
    let first_x = floor_div_16(box_x - origin_x);
    let first_y = floor_div_16(box_y - origin_y);
    let lo_x = clamp_index(first_x, columns);
    let hi_x = clamp_index(first_x + mover.tiles_width() as i128 + 1, columns);
    let lo_y = clamp_index(first_y, rows);
    let hi_y = clamp_index(first_y + mover.tiles_height() as i128 + 1, rows);
    proof {
        assert forall|cx: int, cy: int|
            0 <= cx < columns && 0 <= cy < rows && hits(terrain, target, cx, cy) implies lo_x <= cx
            < hi_x && lo_y <= cy < hi_y by {
            let cell = cell_rect(terrain, cx, cy);
            assert(intervals_overlap(target.x, target.x + target.w, cell.x, cell.x + 16));
            assert(intervals_overlap(target.y, target.y + target.h, cell.y, cell.y + 16));
        }
        lemma_grid_hits_skip(terrain, target, 0, lo_x as int);
    }
    let mut out: Vec<Entity> = Vec::new();
    assert(models(out@) =~= Seq::<EntityModel>::empty());
    let mut x = lo_x;
    while x < hi_x
        invariant
            terrain.wf(),
            columns == terrain.cells_x(),
            rows == terrain.cells_y(),
            target == moved_bounds(mover, move_dir),
            origin_x == terrain.pos.x,
            origin_y == terrain.pos.y,
            box_x == target.x,
            box_y == target.y,
            box_w == target.w,
            box_h == target.h,
            0 <= box_w <= 0x10_0000_0000_0000_0000,
            0 <= box_h <= 0x10_0000_0000_0000_0000,
            lo_x <= x <= hi_x <= columns,
            lo_y <= hi_y <= rows,
            forall|cx: int, cy: int|
                0 <= cx < columns && 0 <= cy < rows && hits(terrain, target, cx, cy) ==> lo_x <= cx
                    < hi_x && lo_y <= cy < hi_y,
            models(out@) == grid_hits(terrain, target, x as int),
        decreases hi_x - x,
    {
        proof {
            lemma_column_hits_skip(terrain, target, x as int, 0, lo_y as int);
            assert(grid_hits(terrain, target, x as int) + Seq::<EntityModel>::empty()
                =~= grid_hits(terrain, target, x as int));
        }
        let mut y = lo_y;
        while y < hi_y
            invariant
                terrain.wf(),
                columns == terrain.cells_x(),
                rows == terrain.cells_y(),
                target == moved_bounds(mover, move_dir),
                origin_x == terrain.pos.x,
                origin_y == terrain.pos.y,
                box_x == target.x,
                box_y == target.y,
                box_w == target.w,
                box_h == target.h,
                0 <= box_w <= 0x10_0000_0000_0000_0000,
                0 <= box_h <= 0x10_0000_0000_0000_0000,
                x < hi_x <= columns,
                lo_y <= y <= hi_y <= rows,
                models(out@) == grid_hits(terrain, target, x as int) + column_hits(
                    terrain,
                    target,
                    x as int,
                    y as int,
                ),
            decreases hi_y - y,
        {
            let entity = &terrain.entities[x][y];
            let ghost before = out@;
            let mut hit = false;
            if entity.wall {
                let cell_x = origin_x + x as i128 * 16;
                let cell_y = origin_y + y as i128 * 16;
                if spans_overlap(box_x, box_x + box_w, cell_x, cell_x + 16) && spans_overlap(
                    box_y,
                    box_y + box_h,
                    cell_y,
                    cell_y + 16,
                ) {
                    hit = true;
                    out.push(entity.clone());
                }
            }
            proof {
                assert(entity@ == terrain.cell(x as int, y as int));
                assert(hit == hits(terrain, target, x as int, y as int));
                if hit {
                    assert(models(out@) =~= models(before).push(terrain.cell(x as int, y as int)));
                    assert(models(out@) =~= grid_hits(terrain, target, x as int) + column_hits(
                        terrain,
                        target,
                        x as int,
                        y + 1,
                    ));
                }
            }
            y += 1;
        }
        proof {
            lemma_column_hits_skip(terrain, target, x as int, y as int, rows as int);
        }
        x += 1;
    }
    proof {
        lemma_grid_hits_skip(terrain, target, x as int, columns as int);
    }
    out
}

/// Whether a mover with the given mask state may pass the wall cells
/// `entities`.
pub fn can_pass(has_mask: bool, mask_color: usize, entities: &Vec<Entity>) -> (r: bool)
    ensures
        r == passage_permitted(has_mask, mask_color, models(entities@)),
{
    if entities.len() == 0 {
        return true;
    }
    if !has_mask {
        return false;
    }
    let ghost cells = models(entities@);
    let mut i: usize = 0;
    while i < entities.len()
        invariant
            i <= entities@.len(),
            cells == models(entities@),
            cells.len() == entities@.len(),
            forall|j: int| 0 <= j < i ==> (#[trigger] cells[j]).opens_for(mask_color),
        decreases entities@.len() - i,
    {
        assert(cells[i as int] == entities@[i as int]@);
        if !holds_color(&entities[i].door_colors, mask_color) {
            return false;
        }
        i += 1;
    }
    true
}

/// Whether `color` is among `colors`.
pub fn holds_color(colors: &Vec<usize>, color: usize) -> (r: bool)
    ensures
        r == colors@.contains(color),
{
    let mut i: usize = 0;
    while i < colors.len()
        invariant
            i <= colors@.len(),
            forall|j: int| 0 <= j < i ==> colors@[j] != color,
        decreases colors@.len() - i,
    {
        if colors[i] == color {
            return true;
        }
        i += 1;
    }
    false
}

/// A mover whose new box overlaps no wall cell collides with nothing.
pub proof fn lemma_no_overlap_no_collision(terrain: &Sprite, target: Rect)
    requires
        forall|cx: int, cy: int|
            terrain.has_cell(cx, cy) ==> !#[trigger] hits(terrain, target, cx, cy),
    ensures
        collisions(terrain, target) == Seq::<EntityModel>::empty(),
{
    lemma_grid_hits_skip(terrain, target, 0, terrain.cells_x() as int);
}

/// A mover that stays where it is, outside every wall cell, collides with
/// nothing.
pub proof fn lemma_resting_outside_walls(terrain: &Sprite, mover: &Sprite)
    requires
        forall|cx: int, cy: int|
            terrain.has_cell(cx, cy) && terrain.cell(cx, cy).wall ==> !rects_overlap(
                mover.bounds(),
                #[trigger] cell_rect(terrain, cx, cy),
            ),
    ensures
        collisions(terrain, moved_bounds(mover, Vec2 { x: 0, y: 0 })) == Seq::<EntityModel>::empty(),
{
    assert(moved_bounds(mover, Vec2 { x: 0, y: 0 }) == mover.bounds());
    assert forall|cx: int, cy: int| terrain.has_cell(cx, cy) implies !#[trigger] hits(
        terrain,
        mover.bounds(),
        cx,
        cy,
    ) by {
        let cell = cell_rect(terrain, cx, cy);
    }
    lemma_no_overlap_no_collision(terrain, mover.bounds());
}

/// Where exactly one cell of the terrain is hit, the collisions are that cell.
pub proof fn lemma_single_hit(terrain: &Sprite, target: Rect, cx: int, cy: int)
    requires
        terrain.has_cell(cx, cy),
        hits(terrain, target, cx, cy),
        forall|ox: int, oy: int|
            terrain.has_cell(ox, oy) && !(ox == cx && oy == cy) ==> !#[trigger] hits(
                terrain,
                target,
                ox,
                oy,
            ),
    ensures
        collisions(terrain, target) == seq![terrain.cell(cx, cy)],
{
    let rows = terrain.cells_y() as int;
    let columns = terrain.cells_x() as int;
    lemma_grid_hits_skip(terrain, target, 0, cx);
    lemma_column_hits_skip(terrain, target, cx, 0, cy);
    lemma_column_hits_skip(terrain, target, cx, cy + 1, rows);
    assert(column_hits(terrain, target, cx, cy + 1) == Seq::<EntityModel>::empty().push(
        terrain.cell(cx, cy),
    ));
    assert(grid_hits(terrain, target, cx + 1) =~= seq![terrain.cell(cx, cy)]);
    lemma_grid_hits_skip(terrain, target, cx + 1, columns);
}

/// Boundary exactness, on the footprint: a mover of 16 by 16 pixels that
/// comes to stand exactly on the footprint of a wall cell collides with
/// that cell and with no other.
pub proof fn lemma_exact_footprint(terrain: &Sprite, mover: &Sprite, move_dir: Vec2, cx: int, cy: int)
    requires
        terrain.has_cell(cx, cy),
        terrain.cell(cx, cy).wall,
        moved_bounds(mover, move_dir) == cell_rect(terrain, cx, cy),
    ensures
        collisions(terrain, moved_bounds(mover, move_dir)) == seq![terrain.cell(cx, cy)],
{
    let target = moved_bounds(mover, move_dir);
    assert forall|ox: int, oy: int|
        terrain.has_cell(ox, oy) && !(ox == cx && oy == cy) implies !#[trigger] hits(
        terrain,
        target,
        ox,
        oy,
    ) by {
        let other = cell_rect(terrain, ox, oy);
        assert(!rects_overlap(target, other));
    }
    lemma_single_hit(terrain, target, cx, cy);
}

/// Boundary exactness, beside the footprint: a box that ends where the
/// footprint of a cell begins, or begins where it ends, on either axis,
/// does not hit the cell. Its last pixel is one short of the footprint.
pub proof fn lemma_box_beside_cell_misses(terrain: &Sprite, target: Rect, cx: int, cy: int)
    requires
        target.x + target.w <= cell_rect(terrain, cx, cy).x || cell_rect(terrain, cx, cy).x + 16
            <= target.x || target.y + target.h <= cell_rect(terrain, cx, cy).y || cell_rect(
            terrain,
            cx,
            cy,
        ).y + 16 <= target.y,
    ensures
        !hits(terrain, target, cx, cy),
{
}

/// A mover that comes to stand beside the only wall cell of the terrain,
/// one pixel short of its footprint, collides with nothing.
pub proof fn lemma_beside_lone_wall(terrain: &Sprite, target: Rect, cx: int, cy: int)
    requires
        forall|ox: int, oy: int|
            terrain.has_cell(ox, oy) && !(ox == cx && oy == cy) ==> !(#[trigger] terrain.cell(
                ox,
                oy,
            )).wall,
        target.x + target.w <= cell_rect(terrain, cx, cy).x || cell_rect(terrain, cx, cy).x + 16
            <= target.x || target.y + target.h <= cell_rect(terrain, cx, cy).y || cell_rect(
            terrain,
            cx,
            cy,
        ).y + 16 <= target.y,
    ensures
        collisions(terrain, target) == Seq::<EntityModel>::empty(),
{
    lemma_box_beside_cell_misses(terrain, target, cx, cy);
    assert forall|ox: int, oy: int| terrain.has_cell(ox, oy) implies !#[trigger] hits(
        terrain,
        target,
        ox,
        oy,
    ) by {
        if !(ox == cx && oy == cy) {
            assert(!terrain.cell(ox, oy).wall);
        }
    }
    lemma_no_overlap_no_collision(terrain, target);
}

/// A mover that carries the colour of a door passes that door.
pub proof fn lemma_matching_door_opens(color: usize, door: EntityModel)
    requires
        door.door_colors == seq![color],
    ensures
        passage_permitted(true, color, seq![door]),
{
    assert(door.door_colors[0] == color);
}

/// No mover passes a wall cell without door colours, whatever it carries.
pub proof fn lemma_plain_wall_blocks(has_mask: bool, mask_color: usize, wall: EntityModel)
    requires
        wall.door_colors.len() == 0,
    ensures
        !passage_permitted(has_mask, mask_color, seq![wall]),
{
    assert(seq![wall][0] == wall);
}

/// No mover passes two doors at once that have no colour in common.
pub proof fn lemma_disjoint_doors_block(has_mask: bool, mask_color: usize, a: EntityModel, b: EntityModel)
    requires
        forall|color: usize| !(a.opens_for(color) && b.opens_for(color)),
    ensures
        !passage_permitted(has_mask, mask_color, seq![a, b]),
{
    assert(seq![a, b][0] == a);
    assert(seq![a, b][1] == b);
}

} // verus!
