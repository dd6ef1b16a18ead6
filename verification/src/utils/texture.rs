//! Texture atlases: an RGBA image cut into square tiles, one texture each.
//! Pixels are kept as raw bytes: row by row from the top, each row's pixels
//! from the left, 4 bytes (red, green, blue, alpha) per pixel.
use vstd::prelude::*;
use vstd::arithmetic::div_mod::lemma_fundamental_div_mod_converse;

verus! {

/// The PNG file `bytes` decoded to 8-bit RGBA pixels, as its width, height
/// and raw bytes; `None` where the bytes are no PNG file that decodes.
pub uninterp spec fn decoded_png(bytes: Seq<u8>) -> Option<(u32, u32, Seq<u8>)>;

/// Calls `image::load_from_memory_with_format` with the PNG format and
/// converts the image with `DynamicImage::to_rgba8`, handing back its width,
/// height and raw bytes. Claims that the result is `decoded_png` of the
/// bytes, and, as `to_rgba8` builds its buffer with `ImageBuffer::new`, that
/// the raw bytes are exactly 4 per pixel.
#[verifier::external_body]
fn decode_png(bytes: &[u8]) -> (r: Option<(u32, u32, Vec<u8>)>)
    ensures
        r is None <==> decoded_png(bytes@) is None,
        r matches Some(img) ==> decoded_png(bytes@) == Some((img.0, img.1, img.2@)),
        r matches Some(img) ==> img.2@.len() == 4 * img.0 * img.1,
{
    match image::load_from_memory_with_format(bytes, image::ImageFormat::Png) {
        Ok(img) => {
            let rgba = img.to_rgba8();
            let (width, height) = rgba.dimensions();
            Some((width, height, rgba.into_raw()))
        },
        Err(_) => None,
    }
}

/// Byte `k` of the `size`×`size` tile whose top-left pixel is `(x0, y0)` in
/// the pixels `data` of an image `width` pixels wide.
pub open spec fn tile_byte(data: Seq<u8>, width: int, x0: int, y0: int, size: int, k: int) -> u8 {
    let p = k / 4;
    data[((y0 + p / size) * width + x0 + p % size) * 4 + k % 4]
}

/// The `size`×`size` tile whose top-left pixel is `(x0, y0)` in the pixels
/// `data` of an image `width` pixels wide.
pub open spec fn tile(data: Seq<u8>, width: int, x0: int, y0: int, size: int) -> Seq<u8> {
    Seq::new((size * size * 4) as nat, |k: int| tile_byte(data, width, x0, y0, size, k))
}

/// The tiles of an image of `width`×`height` pixels cut into `size`×`size`
/// tiles: the columns of tiles from the left, each column from the top.
/// Pixels beyond the last whole tile of a row or column are left out.
pub open spec fn atlas(data: Seq<u8>, width: int, height: int, size: int) -> Seq<Seq<u8>> {
    let rows = height / size;
    Seq::new(
        ((width / size) * rows) as nat,
        |n: int| tile(data, width, (n / rows) * size, (n % rows) * size, size),
    )
}

proof fn lemma_pixel_in_image(row: int, col: int, width: int, height: int)
    requires
        0 <= row < height,
        0 <= col < width,
    ensures
        0 <= row * width,
        row * width + col < width * height,
        (row * width + col) * 4 + 3 < 4 * width * height,
{
    assert(0 <= row * width && row * width + col < width * height && (row * width + col) * 4 + 3 < 4
        * width * height) by (nonlinear_arith)
        requires
            0 <= row < height,
            0 <= col < width,
    ;
}

/// Cuts the `size`×`size` tile whose top-left pixel is `(x0, y0)` out of an
/// image of `width`×`height` pixels.
pub fn crop_tile(data: &Vec<u8>, width: u32, height: u32, x0: u32, y0: u32, size: u32) -> (t: Vec<u8>)
    requires
        data@.len() == 4 * width * height,
        x0 + size <= width,
        y0 + size <= height,
    ensures
        t@ == tile(data@, width as int, x0 as int, y0 as int, size as int),
{
    let ghost target = tile(data@, width as int, x0 as int, y0 as int, size as int);
    let total = data.len();
    let mut t: Vec<u8> = Vec::new();
    let mut j: u32 = 0;
    while j < size
        invariant
            j <= size,
            total == data@.len(),
            data@.len() == 4 * width * height,
            x0 + size <= width,
            y0 + size <= height,
            target == tile(data@, width as int, x0 as int, y0 as int, size as int),
            t@ =~= target.take(j * size * 4),
        decreases size - j,
    {
        let mut i: u32 = 0;
        while i < size
            invariant
                i <= size,
                j < size,
                total == data@.len(),
                data@.len() == 4 * width * height,
                x0 + size <= width,
                y0 + size <= height,
                target == tile(data@, width as int, x0 as int, y0 as int, size as int),
                t@ =~= target.take((j * size + i) * 4),
            decreases size - i,
        {
            let row = y0 + j;
            let col = x0 + i;
            proof {
                lemma_pixel_in_image(row as int, col as int, width as int, height as int);
            }
            let base = (row as usize * width as usize + col as usize) * 4;
            let mut c: usize = 0;
            while c < 4
                invariant
                    c <= 4,
                    i < size,
                    j < size,
                    row == y0 + j,
                    col == x0 + i,
                    base == (row * width + col) * 4,
                    base + 3 < data@.len(),
                    data@.len() == 4 * width * height,
                    target == tile(data@, width as int, x0 as int, y0 as int, size as int),
                    t@ =~= target.take((j * size + i) * 4 + c),
                decreases 4 - c,
            {
                proof {
                    let k = (j * size + i) * 4 + c;
                    lemma_fundamental_div_mod_converse(k, 4, j * size + i, c as int);
                    lemma_fundamental_div_mod_converse(j * size + i, size as int, j as int, i as int);
                    assert(0 <= k < size * size * 4) by (nonlinear_arith)
                        requires
                            k == (j * size + i) * 4 + c,
                            0 <= c < 4,
                            0 <= i < size,
                            0 <= j < size,
                    ;
                    assert(target[k] == data@[(base + c) as int]);
                    assert(target.take(k + 1) =~= target.take(k).push(target[k]));
                }
                t.push(data[base + c]);
                c = c + 1;
            }
            proof {
                assert((j * size + i) * 4 + 4 == (j * size + (i + 1)) * 4);
            }
            i = i + 1;
        }
        proof {
            assert((j * size + size) * 4 == (j + 1) * size * 4) by (nonlinear_arith);
        }
        j = j + 1;
    }
    proof {
        assert(target.len() == size * size * 4);
        assert(target.take(size * size * 4) =~= target);
    }
    t
}

/// Cuts an image of `width`×`height` pixels into `size`×`size` tiles: the
/// columns of tiles from the left, each column from the top.
pub fn atlas_tiles(data: &Vec<u8>, width: u32, height: u32, size: u32) -> (tiles: Vec<Vec<u8>>)
    requires
        data@.len() == 4 * width * height,
        size > 0,
    ensures
        tiles@.len() == atlas(data@, width as int, height as int, size as int).len(),
        forall|n: int|
            0 <= n < tiles@.len() ==> (#[trigger] tiles@[n])@ == atlas(
                data@,
                width as int,
                height as int,
                size as int,
            )[n],
{
    let ghost target = atlas(data@, width as int, height as int, size as int);
    let columns = width / size;
    let rows = height / size;
    let mut tiles: Vec<Vec<u8>> = Vec::new();
    let mut x: u32 = 0;
    while x < columns
        invariant
            x <= columns,
            columns == width / size,
            rows == height / size,
            size > 0,
            data@.len() == 4 * width * height,
            target == atlas(data@, width as int, height as int, size as int),
            tiles@.len() == x * rows,
            forall|n: int| 0 <= n < tiles@.len() ==> (#[trigger] tiles@[n])@ == target[n],
        decreases columns - x,
    {
        let mut y: u32 = 0;
        while y < rows
            invariant
                y <= rows,
                x < columns,
                columns == width / size,
                rows == height / size,
                size > 0,
                data@.len() == 4 * width * height,
                target == atlas(data@, width as int, height as int, size as int),
                tiles@.len() == x * rows + y,
                forall|n: int| 0 <= n < tiles@.len() ==> (#[trigger] tiles@[n])@ == target[n],
            decreases rows - y,
        {
            proof {
                assert((x + 1) * size <= width && (y + 1) * size <= height) by (nonlinear_arith)
                    requires
                        x < columns,
                        y < rows,
                        columns == width / size,
                        rows == height / size,
                        size > 0,
                ;
                assert(x * size + size == (x + 1) * size && y * size + size == (y + 1) * size) by (nonlinear_arith);
            }
            let tile_pixels = crop_tile(data, width, height, x * size, y * size, size);
            proof {
                let n = x * rows + y;
                lemma_fundamental_div_mod_converse(n, rows as int, x as int, y as int);
                assert(n < columns * rows) by (nonlinear_arith)
                    requires
                        n == x * rows + y,
                        x < columns,
                        y < rows,
                ;
                assert(target[n] == tile(data@, width as int, x * size, y * size, size as int));
            }
            tiles.push(tile_pixels);
            y = y + 1;
        }
        proof {
            assert(x * rows + rows == (x + 1) * rows) by (nonlinear_arith);
        }
        x = x + 1;
    }
    tiles
}

/// The atlas tile in column `c` and row `r` of tiles is number
/// `c * (height / size) + r`, and its pixel `(i, j)` is the image's pixel
/// `(c * size + i, r * size + j)`, byte for byte.
pub proof fn law_atlas_tile_pixels(
    data: Seq<u8>,
    width: int,
    height: int,
    size: int,
    c: int,
    r: int,
    i: int,
    j: int,
    channel: int,
)
    requires
        size > 0,
        0 <= c < width / size,
        0 <= r < height / size,
        0 <= i < size,
        0 <= j < size,
        0 <= channel < 4,
    ensures
        0 <= c * (height / size) + r < atlas(data, width, height, size).len(),
        atlas(data, width, height, size)[c * (height / size) + r][(j * size + i) * 4 + channel]
            == data[((r * size + j) * width + c * size + i) * 4 + channel],
{
    let rows = height / size;
    let n = c * rows + r;
    lemma_fundamental_div_mod_converse(n, rows, c, r);
    assert(n < (width / size) * rows) by (nonlinear_arith)
        requires
            n == c * rows + r,
            0 <= c < width / size,
            0 <= r < rows,
    ;
    let k = (j * size + i) * 4 + channel;
    lemma_fundamental_div_mod_converse(k, 4, j * size + i, channel);
    lemma_fundamental_div_mod_converse(j * size + i, size, j, i);
    assert(0 <= k < size * size * 4) by (nonlinear_arith)
        requires
            k == (j * size + i) * 4 + channel,
            0 <= channel < 4,
            0 <= i < size,
            0 <= j < size,
    ;
    assert(atlas(data, width, height, size)[n] == tile(data, width, c * size, r * size, size));
}

/// The tiles of the texture atlas stored as the PNG file `bytes`, cut into
/// `size`×`size` tiles as `atlas_tiles` does, with the atlas's width and
/// height; `None` where the bytes do not decode.
pub fn load_atlas(bytes: &[u8], size: u32) -> (r: Option<(u32, u32, Vec<Vec<u8>>)>)
    requires
        size > 0,
    ensures
        r is None <==> decoded_png(bytes@) is None,
        r matches Some(res) ==> ({
            let (width, height, data) = decoded_png(bytes@).unwrap();
            &&& res.0 == width
            &&& res.1 == height
            &&& res.2@.len() == atlas(data, width as int, height as int, size as int).len()
            &&& forall|n: int|
                0 <= n < res.2@.len() ==> (#[trigger] res.2@[n])@ == atlas(
                    data,
                    width as int,
                    height as int,
                    size as int,
                )[n]
        }),
{
    match decode_png(bytes) {
        Some((width, height, data)) => {
            let tiles = atlas_tiles(&data, width, height, size);
            Some((width, height, tiles))
        },
        None => None,
    }
}

} // verus!
