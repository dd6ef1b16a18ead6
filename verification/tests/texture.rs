use voxel_game::utils::texture::{atlas_tiles, crop_tile, load_atlas};

/// RGBA bytes of a `width`×`height` image whose pixel `(x, y)` is `[x, y, x + 10 * y, 255]`.
fn gradient(width: u32, height: u32) -> Vec<u8> {
    let mut data = Vec::new();
    for y in 0..height {
        for x in 0..width {
            data.extend_from_slice(&[x as u8, y as u8, (x + 10 * y) as u8, 255]);
        }
    }
    data
}

/// The bytes of the tile of `gradient` with top-left pixel `(x0, y0)`.
fn expected_tile(x0: u32, y0: u32, size: u32) -> Vec<u8> {
    let mut data = Vec::new();
    for j in 0..size {
        for i in 0..size {
            let (x, y) = (x0 + i, y0 + j);
            data.extend_from_slice(&[x as u8, y as u8, (x + 10 * y) as u8, 255]);
        }
    }
    data
}

#[test]
fn crop_tile_copies_the_square() {
    let data = gradient(5, 3);
    let t = crop_tile(&data, 5, 3, 2, 1, 2);
    assert_eq!(t, vec![2, 1, 12, 255, 3, 1, 13, 255, 2, 2, 22, 255, 3, 2, 23, 255]);
}

#[test]
fn atlas_tiles_go_column_by_column() {
    let data = gradient(4, 4);
    let tiles = atlas_tiles(&data, 4, 4, 2);
    assert_eq!(tiles.len(), 4);
    assert_eq!(tiles[0], expected_tile(0, 0, 2));
    assert_eq!(tiles[1], expected_tile(0, 2, 2));
    assert_eq!(tiles[2], expected_tile(2, 0, 2));
    assert_eq!(tiles[3], expected_tile(2, 2, 2));
}

#[test]
fn atlas_tiles_leave_out_partial_tiles() {
    let data = gradient(5, 3);
    let tiles = atlas_tiles(&data, 5, 3, 2);
    assert_eq!(tiles.len(), 2);
    assert_eq!(tiles[0], expected_tile(0, 0, 2));
    assert_eq!(tiles[1], expected_tile(2, 0, 2));
}

#[test]
fn load_atlas_decodes_png_and_cuts_it() {
    let data = gradient(4, 2);
    let mut png = Vec::new();
    image::png::PngEncoder::new(&mut png)
        .encode(&data, 4, 2, image::ColorType::Rgba8)
        .unwrap();
    let (width, height, tiles) = load_atlas(&png, 2).unwrap();
    assert_eq!((width, height), (4, 2));
    assert_eq!(tiles, vec![expected_tile(0, 0, 2), expected_tile(2, 0, 2)]);
}

#[test]
fn load_atlas_refuses_what_is_no_png() {
    assert!(load_atlas(&[1, 2, 3, 4], 2).is_none());
}
