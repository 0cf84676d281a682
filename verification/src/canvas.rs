//! The off-screen pixel canvas: a grid of colour cells that is cleared and
//! repainted on every tick. Writes outside the grid are clipped.

use crate::math::vec4::{Color4, Vec4};
use vstd::prelude::*;

verus! {

/// Number of pixel columns of the logical canvas.
pub const CANVAS_WIDTH: usize = 640;

/// Number of pixel rows of the logical canvas.
pub const CANVAS_HEIGHT: usize = 480;

/// A grid of colours as a sequence of columns: `grid[x][y]` is the pixel in
/// column `x` and row `y`.
pub type Grid = Seq<Seq<Color4>>;

/// Whether `(x, y)` names a cell of `grid`.
pub open spec fn in_grid(grid: Grid, x: int, y: int) -> bool {
    0 <= x < grid.len() && 0 <= y < grid[x].len()
}

/// Whether every column of `grid` has `height` cells and there are `width` columns.
pub open spec fn is_rect(grid: Grid, width: nat, height: nat) -> bool {
    &&& grid.len() == width
    &&& forall|x: int| 0 <= x < grid.len() ==> (#[trigger] grid[x]).len() == height
}

/// The grid of `width` columns of `height` cells with `color` in every cell.
pub open spec fn filled(width: nat, height: nat, color: Color4) -> Grid {
    Seq::new(width, |x: int| Seq::new(height, |y: int| color))
}

/// The grid of the shape of `grid` with `color` in every cell.
pub open spec fn cleared(grid: Grid, color: Color4) -> Grid {
    Seq::new(grid.len(), |x: int| Seq::new(grid[x].len(), |y: int| color))
}

/// The grid after a clipped write: `color` at `(x, y)` if that is a cell of
/// `grid`, and `grid` unchanged if it is not.
pub open spec fn with_pixel(grid: Grid, x: int, y: int, color: Color4) -> Grid {
    if in_grid(grid, x, y) {
        grid.update(x, grid[x].update(y, color))
    } else {
        grid
    }
}

/// The colour that `VirtualFrameBuffer::new` fills the canvas with: opaque black.
pub open spec fn black() -> Color4 {
    Vec4 { x: 0, y: 0, z: 0, w: 255 }
}

/// The low eight bits of a channel, as a display takes them.
pub open spec fn low_byte(v: i32) -> u8 {
    (v as int % 256) as u8
}

/// The low eight bits of a channel.
pub fn channel_byte(v: i32) -> (r: u8)
    ensures
        r == low_byte(v),
{
    let m = v % 256;
    if m < 0 {
        (m + 256) as u8
    } else {
        m as u8
    }
}

/// The bytes of a colour in a frame buffer: red, green, blue, or, where
/// `blue_first` is set, blue, green, red. Alpha is not presented.
pub fn frame_bytes(color: Color4, blue_first: bool) -> (r: [u8; 3])
    ensures
        r[1] == low_byte(color.y),
        r[0] == if blue_first {
            low_byte(color.z)
        } else {
            low_byte(color.x)
        },
        r[2] == if blue_first {
            low_byte(color.x)
        } else {
            low_byte(color.z)
        },
{
    let (red, green, blue) = (channel_byte(color.x), channel_byte(color.y), channel_byte(color.z));
    if blue_first {
        [blue, green, red]
    } else {
        [red, green, blue]
    }
}

/// Offset in bytes of the pixel `(x, y)` in a frame buffer of four bytes to
/// the pixel and `stride` pixels to the scan line; `None` where the offset
/// does not fit a machine word.
pub fn frame_offset(x: usize, y: usize, stride: usize) -> (r: Option<usize>)
    ensures
        r == if 4 * (y * stride + x) <= usize::MAX {
            Some((4 * (y * stride + x)) as usize)
        } else {
            None
        },
{
    let row = match y.checked_mul(stride) {
        Some(row) => row,
        None => {
            assert(4 * (y * stride + x) > usize::MAX) by (nonlinear_arith)
                requires
                    y * stride > usize::MAX,
                    x >= 0,
            ;
            return None;
        },
    };
    let index = match row.checked_add(x) {
        Some(index) => index,
        None => {
            return None;
        },
    };
    index.checked_mul(4)
}

/// The canvas: `data[x][y]` is the colour of the pixel in column `x` and
/// row `y`.
pub struct VirtualFrameBuffer {
    pub data: Vec<Vec<Color4>>,
}

impl View for VirtualFrameBuffer {
    type V = Grid;

    open spec fn view(&self) -> Grid {
        Seq::new(self.data@.len(), |x: int| self.data@[x]@)
    }
}

impl VirtualFrameBuffer {
    /// Whether the canvas is rectangular: every column is as long as the first.
    pub open spec fn wf(&self) -> bool {
        is_rect(self@, self.spec_width(), self.spec_height())
    }

    /// Number of columns.
    pub open spec fn spec_width(&self) -> nat {
        self.data@.len()
    }

    /// Number of rows, taken from the first column; zero without columns.
    pub open spec fn spec_height(&self) -> nat {
        if self.data@.len() > 0 {
            self.data@[0]@.len()
        } else {
            0
        }
    }

    /// A canvas of `CANVAS_WIDTH` by `CANVAS_HEIGHT` opaque black pixels.
    pub fn new() -> (r: VirtualFrameBuffer)
        ensures
            r@ == filled(CANVAS_WIDTH as nat, CANVAS_HEIGHT as nat, black()),
            r.wf(),
            r.spec_width() == CANVAS_WIDTH,
            r.spec_height() == CANVAS_HEIGHT,
    {
        let fill = Color4::new(0, 0, 0, 255);
        let mut data: Vec<Vec<Color4>> = Vec::new();
        let mut x: usize = 0;
        while x < CANVAS_WIDTH
            invariant
                x <= CANVAS_WIDTH,
                fill == black(),
                data@.len() == x,
                forall|i: int, j: int|
                    0 <= i < x && 0 <= j < CANVAS_HEIGHT ==> (#[trigger] data@[i]@[j]) == black(),
                forall|i: int| 0 <= i < x ==> (#[trigger] data@[i])@.len() == CANVAS_HEIGHT,
            decreases CANVAS_WIDTH - x,
        {
            let mut column: Vec<Color4> = Vec::new();
            let mut y: usize = 0;
            while y < CANVAS_HEIGHT
                invariant
                    y <= CANVAS_HEIGHT,
                    fill == black(),
                    column@.len() == y,
                    forall|j: int| 0 <= j < y ==> #[trigger] column@[j] == black(),
                decreases CANVAS_HEIGHT - y,
            {
                column.push(fill);
                y += 1;
            }
            data.push(column);
            x += 1;
        }
        let r = VirtualFrameBuffer { data };
        assert(r@ =~~= filled(CANVAS_WIDTH as nat, CANVAS_HEIGHT as nat, black()));
        r
    }

    /// Number of columns.
    pub fn width(&self) -> (w: usize)
        ensures
            w == self.spec_width(),
            w == self@.len(),
    {
        self.data.len()
    }

    /// Number of rows.
    pub fn height(&self) -> (h: usize)
        ensures
            h == self.spec_height(),
    {
        if self.data.len() > 0 {
            self.data[0].len()
        } else {
            0
        }
    }

    /// Overwrites every cell with `clear_color`.
    pub fn clear(&mut self, clear_color: Color4)
        ensures
            final(self)@ == cleared(old(self)@, clear_color),
    {
        let ghost before = self.data@;
        let columns = self.data.len();
        let mut x: usize = 0;
        while x < columns
            invariant
                x <= columns,
                columns == before.len(),
                self.data@.len() == before.len(),
                forall|i: int|
                    0 <= i < before.len() ==> (#[trigger] self.data@[i])@.len() == before[i]@.len(),
                forall|i: int, j: int|
                    0 <= i < x && 0 <= j < before[i]@.len() ==> #[trigger] self.data@[i]@[j]
                        == clear_color,
            decreases columns - x,
        {
            let rows = self.data[x].len();
            let mut y: usize = 0;
            while y < rows
                invariant
                    x < columns,
                    y <= rows,
                    columns == before.len(),
                    rows == before[x as int]@.len(),
                    self.data@.len() == before.len(),
                    forall|i: int|
                        0 <= i < before.len() ==> (#[trigger] self.data@[i])@.len()
                            == before[i]@.len(),
                    forall|i: int, j: int|
                        0 <= i < x && 0 <= j < before[i]@.len() ==> #[trigger] self.data@[i]@[j]
                            == clear_color,
                    forall|j: int| 0 <= j < y ==> #[trigger] self.data@[x as int]@[j] == clear_color,
                decreases rows - y,
            {
                self.data[x][y] = clear_color;
                y += 1;
            }
            x += 1;
        }
        assert(self@ =~~= cleared(old(self)@, clear_color));
    }

    /// Writes `color` at `(x, y)` if that is a cell of the canvas; a write
    /// outside the canvas is dropped.
    pub fn set(&mut self, x: i64, y: i64, color: Color4)
        ensures
            final(self)@ == with_pixel(old(self)@, x as int, y as int, color),
    {
        if x < 0 || y < 0 || x as u64 >= self.data.len() as u64 {
            return;
        }
        let ux = x as usize;
        if y as u64 >= self.data[ux].len() as u64 {
            return;
        }
        let uy = y as usize;
        let ghost before = self@;
        self.data[ux][uy] = color;
        assert(self@ =~~= with_pixel(before, x as int, y as int, color));
    }

    /// Writes `color` at `(x, y)`, which must be a cell of the canvas.
    pub fn put(&mut self, x: usize, y: usize, color: Color4)
        requires
            in_grid(old(self)@, x as int, y as int),
        ensures
            final(self)@ == with_pixel(old(self)@, x as int, y as int, color),
    {
        let ghost before = self@;
        self.data[x][y] = color;
        assert(self@ =~~= with_pixel(before, x as int, y as int, color));
    }

    /// Number of cells in column `x`.
    pub fn column_len(&self, x: usize) -> (n: usize)
        requires
            x < self@.len(),
        ensures
            n == self@[x as int].len(),
    {
        self.data[x].len()
    }

    /// The colour at `(x, y)`, or `None` outside the canvas.
    pub fn get(&self, x: usize, y: usize) -> (r: Option<Color4>)
        ensures
            r == if in_grid(self@, x as int, y as int) {
                Some(self@[x as int][y as int])
            } else {
                None
            },
    {
        if x < self.data.len() && y < self.data[x].len() {
            Some(self.data[x][y])
        } else {
            None
        }
    }
}

} // verus!
