//! Tiles and the tile atlas: a bitmap cut into blocks of 16 by 16 pixels,
//! numbered row by row, with white as the transparent colour key.

use crate::bitmap::{bmp_color_at, bmp_dimensions, lemma_row_major_order, row_major, Bitmap};
use crate::error::DecodeError;
use crate::math::vec4::{Color4, Vec4};
use vstd::prelude::*;

verus! {

/// Edge length of a tile in pixels.
pub const TILE_SIZE: usize = 16;

/// The colour of an atlas pixel: its red, green and blue, with alpha 0 where
/// the pixel is white (the colour key) and alpha 1 everywhere else.
pub open spec fn keyed(rgb: (u8, u8, u8)) -> Color4 {
    Vec4 {
        x: rgb.0 as i32,
        y: rgb.1 as i32,
        z: rgb.2 as i32,
        w: if rgb.0 == 255 && rgb.1 == 255 && rgb.2 == 255 {
            0
        } else {
            1
        },
    }
}

/// Applies the colour key to one decoded pixel.
pub fn key_color(rgb: (u8, u8, u8)) -> (r: Color4)
    ensures
        r == keyed(rgb),
{
    let alpha: i32 = if rgb.0 == 255 && rgb.1 == 255 && rgb.2 == 255 {
        0
    } else {
        1
    };
    Color4::new(rgb.0 as i32, rgb.1 as i32, rgb.2 as i32, alpha)
}

/// Opaque white, the colour of a default tile.
pub open spec fn opaque_white() -> Color4 {
    Vec4 { x: 255, y: 255, z: 255, w: 255 }
}

/// A block of 16 by 16 colours; `pixels[x][y]` is column `x`, row `y`.
pub struct Tile {
    pub pixels: [[Color4; 16]; 16],
}

impl Tile {
    pub const WIDTH: usize = TILE_SIZE;

    pub const HEIGHT: usize = TILE_SIZE;

    /// The colour in column `x` and row `y` of the tile.
    pub open spec fn at(&self, x: int, y: int) -> Color4 {
        self.pixels[x][y]
    }

    pub fn new_from_pixels(pixels: [[Color4; 16]; 16]) -> (r: Tile)
        ensures
            r.pixels == pixels,
    {
        Tile { pixels }
    }

    /// The colour in column `x` and row `y` of the tile.
    pub fn pixel(&self, x: usize, y: usize) -> (r: Color4)
        requires
            x < 16,
            y < 16,
        ensures
            r == self.at(x as int, y as int),
    {
        self.pixels[x][y]
    }
}

impl Default for Tile {
    /// A tile of opaque white.
    fn default() -> (r: Tile)
        ensures
            forall|x: int, y: int|
                0 <= x < 16 && 0 <= y < 16 ==> #[trigger] r.at(x, y) == opaque_white(),
    {
        Tile { pixels: [[Color4::new(255, 255, 255, 255); 16]; 16] }
    }
}

/// Whether `tile` is the block of 16 by 16 pixels of `bitmap` in tile column
/// `col` and tile row `row`, every pixel under the colour key.
pub open spec fn is_block_of(tile: Tile, bitmap: Bitmap, col: int, row: int) -> bool {
    forall|px: int, py: int|
        0 <= px < 16 && 0 <= py < 16 ==> #[trigger] tile.at(px, py) == keyed(
            bitmap.rgb_at(col * 16 + px, row * 16 + py),
        )
}

/// Whether `tile` is the block of 16 by 16 pixels in tile column `col` and
/// tile row `row` of the image that the decoder reads from `bytes`, every
/// pixel under the colour key.
pub open spec fn is_block_of_stream(tile: Tile, bytes: Seq<u8>, col: int, row: int) -> bool {
    forall|px: int, py: int|
        0 <= px < 16 && 0 <= py < 16 ==> #[trigger] tile.at(px, py) == keyed(
            bmp_color_at(bytes, col * 16 + px, row * 16 + py)->Some_0,
        ) && bmp_color_at(bytes, col * 16 + px, row * 16 + py) is Some
}

/// The tile atlas: tiles numbered row by row, `columns` tiles to a row of the
/// source image.
pub struct TileSet {
    pub tiles: Vec<Tile>,
    pub columns: usize,
}

impl TileSet {
    /// Number of tiles.
    pub open spec fn spec_len(&self) -> nat {
        self.tiles@.len()
    }

    /// The colour at `(px, py)` within tile `index`.
    pub open spec fn at(&self, index: int, px: int, py: int) -> Color4 {
        self.tiles@[index].at(px, py)
    }

    /// Whether `self` is the atlas of `bitmap`: one tile for each block of 16
    /// by 16 pixels, the block in tile column `col` and tile row `row` at
    /// index `row * columns + col`.
    pub open spec fn is_atlas_of(&self, bitmap: Bitmap) -> bool {
        let columns = bitmap.width as int / 16;
        let rows = bitmap.height as int / 16;
        &&& self.columns == columns
        &&& self.tiles@.len() == rows * columns
        &&& forall|col: int, row: int|
            0 <= col < columns && 0 <= row < rows ==> is_block_of(
                #[trigger] self.tiles@[row_major(columns, col, row)],
                bitmap,
                col,
                row,
            )
    }

    /// Whether `self` is the atlas of the image that the decoder reads from
    /// `bytes`: one tile for each block of 16 by 16 pixels, the block in
    /// tile column `col` and tile row `row` at index `row * columns + col`.
    pub open spec fn is_atlas_of_stream(&self, bytes: Seq<u8>) -> bool {
        &&& bmp_dimensions(bytes) matches Some((width, height))
        &&& self.columns == width as int / 16
        &&& self.tiles@.len() == (height as int / 16) * (width as int / 16)
        &&& forall|col: int, row: int|
            0 <= col < width as int / 16 && 0 <= row < height as int / 16 ==> is_block_of_stream(
                #[trigger] self.tiles@[row_major(width as int / 16, col, row)],
                bytes,
                col,
                row,
            )
    }

    /// Whether the dimensions that the decoder reads from `bytes` are both
    /// multiples of the tile size.
    pub open spec fn tileable(bytes: Seq<u8>) -> bool {
        bmp_dimensions(bytes) matches Some((w, h)) && w % 16 == 0 && h % 16 == 0
    }

    /// Number of tiles.
    pub fn len(&self) -> (n: usize)
        ensures
            n == self.spec_len(),
    {
        self.tiles.len()
    }

    /// The tile at `index`, or `None` where the atlas holds no such tile.
    pub fn tile(&self, index: usize) -> (r: Option<&Tile>)
        ensures
            index < self.spec_len() ==> r == Some(&self.tiles@[index as int]),
            index >= self.spec_len() ==> r is None,
    {
        if index < self.tiles.len() {
            Some(&self.tiles[index])
        } else {
            None
        }
    }

    /// Cuts the block in tile column `col` and tile row `row` out of `bitmap`.
    fn cut_tile(bitmap: &Bitmap, col: usize, row: usize) -> (r: Tile)
        requires
            bitmap.wf(),
            col < bitmap.width / 16,
            row < bitmap.height / 16,
        ensures
            is_block_of(r, *bitmap, col as int, row as int),
    {
        let total = bitmap.pixels.len();
        let mut pixels = [[Color4::new(255, 255, 255, 255); 16]; 16];
        let mut x: usize = 0;
        while x < 16
            invariant
                x <= 16,
                total == bitmap.pixels@.len(),
                bitmap.wf(),
                col < bitmap.width / 16,
                row < bitmap.height / 16,
                forall|px: int, py: int|
                    0 <= px < x && 0 <= py < 16 ==> #[trigger] pixels[px][py] == keyed(
                        bitmap.rgb_at(col * 16 + px, row * 16 + py),
                    ),
            decreases 16 - x,
        {
            let mut y: usize = 0;
            while y < 16
                invariant
                    x < 16,
                    y <= 16,
                    total == bitmap.pixels@.len(),
                    bitmap.wf(),
                    col < bitmap.width / 16,
                    row < bitmap.height / 16,
                    forall|px: int, py: int|
                        0 <= px < x && 0 <= py < 16 ==> #[trigger] pixels[px][py] == keyed(
                            bitmap.rgb_at(col * 16 + px, row * 16 + py),
                        ),
                    forall|py: int|
                        0 <= py < y ==> #[trigger] pixels[x as int][py] == keyed(
                            bitmap.rgb_at(col * 16 + x, row * 16 + py),
                        ),
                decreases 16 - y,
            {
                let source_x = col * 16 + x;
                let source_y = row * 16 + y;
                proof {
                    lemma_row_major_order(
                        bitmap.width as int,
                        source_x as int,
                        source_y as int,
                        bitmap.height as int,
                    );
                    assert(bitmap.height * bitmap.width == bitmap.width * bitmap.height)
                        by (nonlinear_arith);
                }
                let color = key_color(bitmap.pixels[source_y * bitmap.width + source_x]);
                pixels[x][y] = color;
                y += 1;
            }
            x += 1;
        }
        Tile { pixels }
    }

    /// Builds the atlas of a decoded bitmap.
    pub fn from_bitmap(bitmap: &Bitmap) -> (r: Result<TileSet, DecodeError>)
        ensures
            !bitmap.wf() ==> r == Err::<TileSet, DecodeError>(DecodeError::MalformedBitmap),
            bitmap.wf() && !(bitmap.width % 16 == 0 && bitmap.height % 16 == 0) ==> r == Err::<
                TileSet,
                DecodeError,
            >(DecodeError::BadDimensions),
            bitmap.wf() && bitmap.width % 16 == 0 && bitmap.height % 16 == 0 ==> r is Ok
                && r->Ok_0.is_atlas_of(*bitmap),
    {
        let total = bitmap.pixels.len();
        match bitmap.width.checked_mul(bitmap.height) {
            Some(count) => {
                if count != total {
                    return Err(DecodeError::MalformedBitmap);
                }
            },
            None => {
                return Err(DecodeError::MalformedBitmap);
            },
        }
        if bitmap.width % 16 != 0 || bitmap.height % 16 != 0 {
            return Err(DecodeError::BadDimensions);
        }
        let columns = bitmap.width / 16;
        let rows = bitmap.height / 16;
        let mut tiles: Vec<Tile> = Vec::new();
        let mut row: usize = 0;
        while row < rows
            invariant
                row <= rows,
                bitmap.wf(),
                columns == bitmap.width / 16,
                rows == bitmap.height / 16,
                tiles@.len() == row_major(columns as int, 0, row as int),
                forall|c: int, r: int|
                    0 <= c < columns && 0 <= r < row ==> is_block_of(
                        #[trigger] tiles@[row_major(columns as int, c, r)],
                        *bitmap,
                        c,
                        r,
                    ),
            decreases rows - row,
        {
            let mut col: usize = 0;
            while col < columns
                invariant
                    row < rows,
                    col <= columns,
                    bitmap.wf(),
                    columns == bitmap.width / 16,
                    rows == bitmap.height / 16,
                    tiles@.len() == row_major(columns as int, col as int, row as int),
                    forall|c: int, r: int|
                        0 <= c < columns && 0 <= r < row ==> is_block_of(
                            #[trigger] tiles@[row_major(columns as int, c, r)],
                            *bitmap,
                            c,
                            r,
                        ),
                    forall|c: int|
                        0 <= c < col ==> is_block_of(
                            #[trigger] tiles@[row_major(columns as int, c, row as int)],
                            *bitmap,
                            c,
                            row as int,
                        ),
                decreases columns - col,
            {
                let tile = Self::cut_tile(bitmap, col, row);
                let ghost before = tiles@;
                tiles.push(tile);
                proof {
                    assert forall|c: int, r: int| 0 <= c < columns && 0 <= r < row implies is_block_of(
                        #[trigger] tiles@[row_major(columns as int, c, r)],
                        *bitmap,
                        c,
                        r,
                    ) by {
                        lemma_row_major_order(columns as int, c, r, row as int);
                        let k = row_major(columns as int, c, r);
                        assert(tiles@[k] == before[k]);
                    }
                    assert forall|c: int| 0 <= c < col + 1 implies is_block_of(
                        #[trigger] tiles@[row_major(columns as int, c, row as int)],
                        *bitmap,
                        c,
                        row as int,
                    ) by {
                        let k = row_major(columns as int, c, row as int);
                        if c < col {
                            assert(tiles@[k] == before[k]);
                        } else {
                            assert(tiles@[k] == tile);
                        }
                    }
                }
                col += 1;
            }
            proof {
                assert((row + 1) * columns == row * columns + columns) by (nonlinear_arith);
            }
            row += 1;
        }
        Ok(TileSet { tiles, columns })
    }

    /// Decodes a BMP byte stream and builds its atlas.
    pub fn new_from_buffer(buffer: Vec<u8>) -> (r: Result<TileSet, DecodeError>)
        ensures
            usize::BITS != 64 ==> r == Err::<TileSet, DecodeError>(DecodeError::UnsupportedTarget),
            usize::BITS == 64 && !Bitmap::decodable(buffer@) ==> r == Err::<TileSet, DecodeError>(
                DecodeError::MalformedBitmap,
            ),
            usize::BITS == 64 && Bitmap::decodable(buffer@) && !Self::tileable(buffer@) ==> r
                == Err::<TileSet, DecodeError>(DecodeError::BadDimensions),
            usize::BITS == 64 && Bitmap::decodable(buffer@) && Self::tileable(buffer@) ==> r is Ok
                && r->Ok_0.is_atlas_of_stream(buffer@),
    {
        let bitmap = match Bitmap::decode(buffer.as_slice()) {
            Ok(bitmap) => bitmap,
            Err(e) => {
                return Err(e);
            },
        };
        let r = Self::from_bitmap(&bitmap);
        proof {
            if r is Ok {
                lemma_atlas_of_decoded(&r->Ok_0, bitmap, buffer@);
            }
        }
        r
    }
}

impl Default for TileSet {
    /// An atlas of one default tile.
    fn default() -> (r: TileSet)
        ensures
            r.spec_len() == 1,
            r.columns == 1,
            forall|x: int, y: int|
                0 <= x < 16 && 0 <= y < 16 ==> #[trigger] r.at(0, x, y) == opaque_white(),
    {
        let mut tiles: Vec<Tile> = Vec::new();
        tiles.push(Tile::default());
        TileSet { tiles, columns: 1 }
    }
}

/// The atlas of a bitmap that holds what the decoder reads from a byte
/// stream is the atlas of that stream.
pub proof fn lemma_atlas_of_decoded(atlas: &TileSet, bitmap: Bitmap, bytes: Seq<u8>)
    requires
        atlas.is_atlas_of(bitmap),
        bitmap.decodes(bytes),
    ensures
        atlas.is_atlas_of_stream(bytes),
{
    let columns = bitmap.width as int / 16;
    let rows = bitmap.height as int / 16;
    assert forall|col: int, row: int| 0 <= col < columns && 0 <= row < rows implies is_block_of_stream(
        #[trigger] atlas.tiles@[row_major(columns, col, row)],
        bytes,
        col,
        row,
    ) by {
        let tile = atlas.tiles@[row_major(columns, col, row)];
        assert(is_block_of(tile, bitmap, col, row));
        assert forall|px: int, py: int| 0 <= px < 16 && 0 <= py < 16 implies #[trigger] tile.at(
            px,
            py,
        ) == keyed(bmp_color_at(bytes, col * 16 + px, row * 16 + py)->Some_0) && bmp_color_at(
            bytes,
            col * 16 + px,
            row * 16 + py,
        ) is Some by {
            let rgb = bitmap.rgb_at(col * 16 + px, row * 16 + py);
            assert(tile.at(px, py) == keyed(rgb));
            assert(bmp_color_at(bytes, col * 16 + px, row * 16 + py) == Some(rgb));
        }
        assert(is_block_of_stream(tile, bytes, col, row));
    }
}

/// The tile at index `i` of an atlas is the block of 16 by 16 pixels of the
/// source image in tile column `i % columns` and tile row `i / columns`.
pub proof fn lemma_tile_position(atlas: &TileSet, bitmap: Bitmap, i: int)
    requires
        atlas.is_atlas_of(bitmap),
        0 <= i < atlas.spec_len(),
    ensures
        atlas.columns > 0,
        is_block_of(atlas.tiles@[i], bitmap, i % atlas.columns as int, i / atlas.columns as int),
{
    let columns = atlas.columns as int;
    let rows = bitmap.height as int / 16;
    assert(columns > 0) by (nonlinear_arith)
        requires
            0 <= i < rows * columns,
            0 <= columns,
    ;
    let col = i % columns;
    let row = i / columns;
    vstd::arithmetic::div_mod::lemma_fundamental_div_mod(i, columns);
    vstd::arithmetic::div_mod::lemma_mod_bound(i, columns);
    assert(0 <= row < rows) by (nonlinear_arith)
        requires
            i == columns * row + col,
            0 <= col < columns,
            0 <= i < rows * columns,
    ;
    assert(row_major(columns, col, row) == i) by (nonlinear_arith)
        requires
            i == columns * row + col,
    ;
}

/// The tile at index `i` of the atlas of a byte stream is the block of 16
/// by 16 pixels that the decoder reads in tile column `i % columns` and tile
/// row `i / columns`.
pub proof fn lemma_tile_position_in_stream(atlas: &TileSet, bytes: Seq<u8>, i: int)
    requires
        atlas.is_atlas_of_stream(bytes),
        0 <= i < atlas.spec_len(),
    ensures
        atlas.columns > 0,
        is_block_of_stream(
            atlas.tiles@[i],
            bytes,
            i % atlas.columns as int,
            i / atlas.columns as int,
        ),
{
    let columns = atlas.columns as int;
    let rows = bmp_dimensions(bytes)->Some_0.1 as int / 16;
    assert(columns > 0) by (nonlinear_arith)
        requires
            0 <= i < rows * columns,
            0 <= columns,
    ;
    let col = i % columns;
    let row = i / columns;
    vstd::arithmetic::div_mod::lemma_fundamental_div_mod(i, columns);
    vstd::arithmetic::div_mod::lemma_mod_bound(i, columns);
    assert(0 <= row < rows) by (nonlinear_arith)
        requires
            i == columns * row + col,
            0 <= col < columns,
            0 <= i < rows * columns,
    ;
    assert(row_major(columns, col, row) == i) by (nonlinear_arith)
        requires
            i == columns * row + col,
    ;
}

} // verus!
