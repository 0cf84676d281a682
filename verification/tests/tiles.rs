use mansion::bitmap::Bitmap;
use mansion::error::DecodeError;
use mansion::math::vec4::Color4;
use mansion::tiles::{key_color, Tile, TileSet, TILE_SIZE};

/// A 24-bit BMP file of the given size, rows stored bottom-up.
fn bmp24(width: u32, height: u32, pixel: &dyn Fn(u32, u32) -> (u8, u8, u8)) -> Vec<u8> {
    let row_bytes = ((width * 3 + 3) / 4) * 4;
    let data_len = row_bytes * height;
    let mut out = Vec::new();
    out.extend_from_slice(b"BM");
    out.extend_from_slice(&(54 + data_len).to_le_bytes());
    out.extend_from_slice(&[0, 0, 0, 0]);
    out.extend_from_slice(&54u32.to_le_bytes());
    out.extend_from_slice(&40u32.to_le_bytes());
    out.extend_from_slice(&(width as i32).to_le_bytes());
    out.extend_from_slice(&(height as i32).to_le_bytes());
    out.extend_from_slice(&1u16.to_le_bytes());
    out.extend_from_slice(&24u16.to_le_bytes());
    out.extend_from_slice(&0u32.to_le_bytes());
    out.extend_from_slice(&data_len.to_le_bytes());
    out.extend_from_slice(&2835u32.to_le_bytes());
    out.extend_from_slice(&2835u32.to_le_bytes());
    out.extend_from_slice(&0u32.to_le_bytes());
    out.extend_from_slice(&0u32.to_le_bytes());
    for stored_row in 0..height {
        let y = height - 1 - stored_row;
        let mut written = 0;
        for x in 0..width {
            let (r, g, b) = pixel(x, y);
            out.extend_from_slice(&[b, g, r]);
            written += 3;
        }
        while written < row_bytes {
            out.push(0);
            written += 1;
        }
    }
    out
}

/// A colour that tells every pixel of a small image apart.
fn coded(x: u32, y: u32) -> (u8, u8, u8) {
    (x as u8, y as u8, 7)
}

#[test]
fn key_color_makes_white_transparent() {
    assert_eq!(key_color((255, 255, 255)), Color4::new(255, 255, 255, 0));
}

#[test]
fn key_color_makes_everything_else_opaque() {
    assert_eq!(key_color((255, 255, 254)), Color4::new(255, 255, 254, 1));
    assert_eq!(key_color((0, 0, 0)), Color4::new(0, 0, 0, 1));
    assert_eq!(key_color((254, 255, 255)), Color4::new(254, 255, 255, 1));
    assert_eq!(key_color((255, 0, 255)), Color4::new(255, 0, 255, 1));
}

#[test]
fn default_tile_is_opaque_white() {
    let tile = Tile::default();
    for x in 0..16 {
        for y in 0..16 {
            assert_eq!(tile.pixels[x][y], Color4::new(255, 255, 255, 255));
            assert_eq!(tile.pixel(x, y), Color4::new(255, 255, 255, 255));
        }
    }
    assert_eq!(Tile::WIDTH, 16);
    assert_eq!(Tile::HEIGHT, 16);
    assert_eq!(TILE_SIZE, 16);
}

#[test]
fn tile_from_pixels_keeps_them() {
    let mut pixels = [[Color4::new(0, 0, 0, 1); 16]; 16];
    pixels[3][5] = Color4::new(1, 2, 3, 0);
    let tile = Tile::new_from_pixels(pixels);
    assert_eq!(tile.pixels, pixels);
    assert_eq!(tile.pixel(3, 5), Color4::new(1, 2, 3, 0));
    assert_eq!(tile.pixel(5, 3), Color4::new(0, 0, 0, 1));
}

#[test]
fn default_atlas_holds_one_default_tile() {
    let atlas = TileSet::default();
    assert_eq!(atlas.len(), 1);
    assert_eq!(atlas.columns, 1);
    assert_eq!(atlas.tile(0).unwrap().pixels, Tile::default().pixels);
    assert!(atlas.tile(1).is_none());
}

#[test]
fn decode_reads_every_pixel_top_down() {
    let bytes = bmp24(3, 2, &coded);
    let bitmap = Bitmap::decode(&bytes).unwrap();
    assert_eq!(bitmap.width, 3);
    assert_eq!(bitmap.height, 2);
    assert_eq!(
        bitmap.pixels,
        vec![(0, 0, 7), (1, 0, 7), (2, 0, 7), (0, 1, 7), (1, 1, 7), (2, 1, 7)]
    );
}

#[test]
fn decode_refuses_what_is_no_bitmap() {
    assert!(matches!(Bitmap::decode(&[]), Err(DecodeError::MalformedBitmap)));
    assert!(matches!(Bitmap::decode(b"not a bitmap at all"), Err(DecodeError::MalformedBitmap)));
    let mut truncated = bmp24(16, 16, &coded);
    truncated.pop();
    assert!(matches!(Bitmap::decode(&truncated), Err(DecodeError::MalformedBitmap)));
}

#[test]
fn atlas_of_one_tile() {
    let bytes = bmp24(16, 16, &|x, y| if x == 3 && y == 5 { (255, 255, 255) } else { coded(x, y) });
    let atlas = TileSet::new_from_buffer(bytes).unwrap();
    assert_eq!(atlas.len(), 1);
    assert_eq!(atlas.columns, 1);
    let tile = atlas.tile(0).unwrap();
    for x in 0..16usize {
        for y in 0..16usize {
            let expected = if x == 3 && y == 5 {
                Color4::new(255, 255, 255, 0)
            } else {
                Color4::new(x as i32, y as i32, 7, 1)
            };
            assert_eq!(tile.pixels[x][y], expected);
        }
    }
}

#[test]
fn atlas_numbers_tiles_row_by_row() {
    let bytes = bmp24(48, 32, &coded);
    let atlas = TileSet::new_from_buffer(bytes).unwrap();
    assert_eq!(atlas.len(), 6);
    assert_eq!(atlas.columns, 3);
    for index in 0..6usize {
        let tile = atlas.tile(index).unwrap();
        let (col, row) = (index % 3, index / 3);
        for px in 0..16usize {
            for py in 0..16usize {
                let expected =
                    Color4::new((col * 16 + px) as i32, (row * 16 + py) as i32, 7, 1);
                assert_eq!(tile.pixels[px][py], expected);
            }
        }
    }
}

#[test]
fn tile_beyond_the_atlas_fails() {
    let atlas = TileSet::new_from_buffer(bmp24(32, 16, &coded)).unwrap();
    assert_eq!(atlas.len(), 2);
    assert!(atlas.tile(1).is_some());
    assert!(atlas.tile(2).is_none());
    assert!(atlas.tile(usize::MAX).is_none());
}

#[test]
fn atlas_refuses_dimensions_that_are_no_multiple_of_16() {
    assert!(matches!(
        TileSet::new_from_buffer(bmp24(17, 16, &coded)),
        Err(DecodeError::BadDimensions)
    ));
    assert!(matches!(
        TileSet::new_from_buffer(bmp24(16, 8, &coded)),
        Err(DecodeError::BadDimensions)
    ));
    assert!(matches!(
        TileSet::new_from_buffer(bmp24(3, 2, &coded)),
        Err(DecodeError::BadDimensions)
    ));
}

#[test]
fn atlas_refuses_what_is_no_bitmap() {
    assert!(matches!(
        TileSet::new_from_buffer(vec![1, 2, 3]),
        Err(DecodeError::MalformedBitmap)
    ));
}

#[test]
fn atlas_from_bitmap_value() {
    let mut pixels = vec![(9u8, 9u8, 9u8); 16 * 32];
    pixels[0] = (255, 255, 255);
    pixels[16 * 16] = (1, 2, 3);
    let bitmap = Bitmap { width: 16, height: 32, pixels };
    let atlas = TileSet::from_bitmap(&bitmap).unwrap();
    assert_eq!(atlas.len(), 2);
    assert_eq!(atlas.columns, 1);
    assert_eq!(atlas.tile(0).unwrap().pixels[0][0], Color4::new(255, 255, 255, 0));
    assert_eq!(atlas.tile(0).unwrap().pixels[1][0], Color4::new(9, 9, 9, 1));
    assert_eq!(atlas.tile(1).unwrap().pixels[0][0], Color4::new(1, 2, 3, 1));
}

#[test]
fn atlas_from_bitmap_refuses_a_wrong_pixel_count() {
    let bitmap = Bitmap { width: 16, height: 16, pixels: vec![(0, 0, 0); 255] };
    assert!(matches!(TileSet::from_bitmap(&bitmap), Err(DecodeError::MalformedBitmap)));
    let huge = Bitmap { width: usize::MAX, height: 16, pixels: vec![] };
    assert!(matches!(TileSet::from_bitmap(&huge), Err(DecodeError::MalformedBitmap)));
}

#[test]
fn atlas_from_bitmap_refuses_bad_dimensions() {
    let bitmap = Bitmap { width: 8, height: 16, pixels: vec![(0, 0, 0); 128] };
    assert!(matches!(TileSet::from_bitmap(&bitmap), Err(DecodeError::BadDimensions)));
}

#[test]
fn atlas_of_an_empty_bitmap_holds_no_tile() {
    let bitmap = Bitmap { width: 0, height: 0, pixels: vec![] };
    let atlas = TileSet::from_bitmap(&bitmap).unwrap();
    assert_eq!(atlas.len(), 0);
    assert!(atlas.tile(0).is_none());
}

#[test]
fn atlas_of_a_larger_image() {
    let bytes = bmp24(256, 128, &|x, y| ((x % 251) as u8, (y % 127) as u8, ((x / 16 + y / 16) % 256) as u8));
    let atlas = TileSet::new_from_buffer(bytes).unwrap();
    assert_eq!(atlas.len(), 128);
    assert_eq!(atlas.columns, 16);
    let tile = atlas.tile(16 * 5 + 9).unwrap();
    assert_eq!(
        tile.pixels[7][3],
        Color4::new(((9 * 16 + 7) % 251) as i32, ((5 * 16 + 3) % 127) as i32, 14, 1)
    );
}
