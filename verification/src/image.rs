//! Image sizes, texture properties and the sprite-sheet gutter.
use vstd::prelude::*;

use crate::graphics::{GfxError, TextureFilter, TextureWrap};

verus! {

/// Texture properties.
#[derive(Copy, Clone, Debug, PartialEq, Eq, Structural)]
pub struct TextureProps {
    pub filter_min: TextureFilter,
    pub filter_mag: TextureFilter,
    pub wrap_u: TextureWrap,
    pub wrap_v: TextureWrap,
}

/// Dimensions and pixel size of a decoded image.
#[derive(Copy, Clone, Debug, PartialEq, Eq, Structural)]
pub struct ImageSize {
    pub width: u32,
    pub height: u32,
    pub bytes_per_pixel: usize,
}

/// Errors while loading an image.
#[derive(Copy, Clone, Debug, PartialEq, Eq, Structural)]
#[non_exhaustive]
pub enum LoadImageError {
    /// An error occurred while loading the image.
    Gfx(GfxError),
    /// The image format is not supported.
    UnsupportedFormat,
}

impl From<GfxError> for LoadImageError {
    fn from(e: GfxError) -> (r: LoadImageError) {
        LoadImageError::Gfx(e)
    }
}

impl vstd::std_specs::convert::FromSpecImpl<GfxError> for LoadImageError {
    open spec fn obeys_from_spec() -> bool {
        true
    }

    open spec fn from_spec(e: GfxError) -> LoadImageError {
        LoadImageError::Gfx(e)
    }
}

/// The source position, along one axis, of position `x` of an image with a one pixel
/// gutter around every sprite of size `sprite`: the sprite's pixel, or its edge pixel
/// for the gutter.
pub open spec fn gutter_source(x: int, sprite: int) -> int {
    let local = x % (sprite + 2) - 1;
    (x / (sprite + 2)) * sprite + if local < 0 { 0 } else if local > sprite - 1 { sprite - 1 } else { local }
}

/// Byte `i` of the guttered image copies this byte of the source image.
pub open spec fn gutter_byte_source(i: int, bytes_per_pixel: int, new_width: int, width: int, sprite_width: int, sprite_height: int) -> int {
    let b = i % bytes_per_pixel;
    let pixel = i / bytes_per_pixel;
    let x = pixel % new_width;
    let y = pixel / new_width;
    (gutter_source(y, sprite_height) * width + gutter_source(x, sprite_width)) * bytes_per_pixel + b
}

/// The bytes the guttering reads fit in the source image, and all sizes fit in `usize`.
pub open spec fn gutter_fits(sprite_width: int, sprite_height: int, len: int, info: ImageSize) -> bool {
    let bpp = info.bytes_per_pixel as int;
    let nx = info.width as int / sprite_width;
    let ny = info.height as int / sprite_height;
    let new_width = nx * (sprite_width + 2);
    let new_height = ny * (sprite_height + 2);
    &&& sprite_width > 0
    &&& sprite_height > 0
    &&& sprite_width + 2 <= usize::MAX
    &&& sprite_height + 2 <= usize::MAX
    &&& new_width <= usize::MAX
    &&& new_height <= usize::MAX
    &&& new_width * new_height <= usize::MAX
    &&& new_width * new_height * bpp <= usize::MAX
    &&& info.width * bpp <= usize::MAX
    &&& new_width * bpp <= usize::MAX
    &&& (nx > 0 && ny > 0 ==> ((ny * sprite_height - 1) * info.width + nx * sprite_width) * bpp <= len)
}

/// With a sprite sheet tightly packed, adds a one pixel gutter around each sprite; the
/// gutter copies the edge pixels of the sprite. Partial sprites at the right and bottom
/// edges are dropped.
pub fn gutter(sprite_width: usize, sprite_height: usize, image: &mut Vec<u8>, info: &mut ImageSize)
    requires
        gutter_fits(sprite_width as int, sprite_height as int, old(image)@.len() as int, *old(info)),
    ensures
        ({
            let bpp = old(info).bytes_per_pixel as int;
            let new_width = (old(info).width as int / sprite_width as int) * (sprite_width + 2);
            let new_height = (old(info).height as int / sprite_height as int) * (sprite_height + 2);
            &&& final(image)@.len() == new_width * new_height * bpp
            &&& forall|i: int| 0 <= i < final(image)@.len() ==> #[trigger] final(image)@[i]
                == old(image)@[gutter_byte_source(i, bpp, new_width, old(info).width as int, sprite_width as int, sprite_height as int)]
            &&& final(info).width == new_width as u32
            &&& final(info).height == new_height as u32
            &&& final(info).bytes_per_pixel == old(info).bytes_per_pixel
        }),
{
    let bpp = info.bytes_per_pixel;
    let width = info.width as usize;
    let nx = width / sprite_width;
    let ny = info.height as usize / sprite_height;
    let new_width = nx * (sprite_width + 2);
    let new_height = ny * (sprite_height + 2);
    proof {
        assert(new_width * new_height <= new_width * new_height * bpp || bpp == 0) by (nonlinear_arith);
        assert(0 <= new_width * new_height) by (nonlinear_arith);
        assert(bpp == 0 || new_width * new_height <= new_width * new_height * bpp) by (nonlinear_arith);
    }
    let len = new_width * new_height * bpp;
    let mut out: Vec<u8> = Vec::new();
    let mut i: usize = 0;
    while i < len
        invariant
            i <= len,
            len == new_width * new_height * bpp,
            out@.len() == i,
            bpp == old(info).bytes_per_pixel,
            width == old(info).width,
            nx == width / sprite_width,
            ny == old(info).height as int / sprite_height as int,
            new_width == nx * (sprite_width + 2),
            new_height == ny * (sprite_height + 2),
            gutter_fits(sprite_width as int, sprite_height as int, image@.len() as int, *old(info)),
            image@ == old(image)@,
            forall|j: int| 0 <= j < i ==> #[trigger] out@[j]
                == image@[gutter_byte_source(j, bpp as int, new_width as int, width as int, sprite_width as int, sprite_height as int)],
        decreases len - i,
    {
        proof {
            assert(bpp > 0 && new_width > 0 && new_height > 0) by (nonlinear_arith)
                requires
                    i < new_width * new_height * bpp,
                    0 <= i;
        }
        let b = i % bpp;
        let pixel = i / bpp;
        proof {
            assert(pixel < new_width * new_height) by (nonlinear_arith)
                requires
                    i < new_width * new_height * bpp,
                    pixel == i / bpp,
                    bpp > 0;
        }
        let x = pixel % new_width;
        let y = pixel / new_width;
        proof {
            assert(y < new_height) by (nonlinear_arith)
                requires
                    pixel < new_width * new_height,
                    new_width > 0,
                    y == pixel / new_width;
        }
        let sprite_x = x / (sprite_width + 2);
        let sprite_y = y / (sprite_height + 2);
        let local_x = x % (sprite_width + 2);
        let local_y = y % (sprite_height + 2);
        proof {
            let sw2 = sprite_width as int + 2;
            let sh2 = sprite_height as int + 2;
            assert(sprite_x < nx) by (nonlinear_arith)
                requires
                    x < new_width,
                    new_width == nx * sw2,
                    sw2 > 2,
                    sprite_x == x as int / sw2;
            assert(sprite_y < ny) by (nonlinear_arith)
                requires
                    y < new_height,
                    new_height == ny * sh2,
                    sh2 > 2,
                    sprite_y == y as int / sh2;
            assert(sprite_x * sprite_width + sprite_width <= nx * sprite_width) by (nonlinear_arith)
                requires
                    sprite_x < nx,
                    sprite_width > 0;
            assert(sprite_y * sprite_height + sprite_height <= ny * sprite_height) by (nonlinear_arith)
                requires
                    sprite_y < ny,
                    sprite_height > 0;
            assert(nx * sprite_width <= width) by (nonlinear_arith)
                requires
                    nx == width / sprite_width,
                    sprite_width > 0;
            let height = old(info).height as int;
            assert(ny * sprite_height <= height) by (nonlinear_arith)
                requires
                    ny == height / sprite_height as int,
                    sprite_height > 0;
        }
        let image_len = image.len();
        let col = sprite_x * sprite_width + if local_x == 0 { 0 } else if local_x - 1 > sprite_width - 1 { sprite_width - 1 } else { local_x - 1 };
        let row = sprite_y * sprite_height + if local_y == 0 { 0 } else if local_y - 1 > sprite_height - 1 { sprite_height - 1 } else { local_y - 1 };
        proof {
            assert((row * width + col) * bpp + b < ((ny * sprite_height - 1) * width + nx * sprite_width) * bpp) by (nonlinear_arith)
                requires
                    row <= ny * sprite_height - 1,
                    col <= nx * sprite_width - 1,
                    b < bpp,
                    0 <= row,
                    0 <= col;
            assert(row * width <= row * width + col <= (row * width + col) * bpp) by (nonlinear_arith)
                requires
                    bpp > 0,
                    0 <= row,
                    0 <= col,
                    0 <= width;
            assert(nx > 0 && ny > 0);
            assert(((ny * sprite_height - 1) * width + nx * sprite_width) * bpp <= image@.len());
            assert((row * width + col) * bpp + b < image@.len());
        }
        let source = (row * width + col) * bpp + b;
        out.push(image[source]);
        i = i + 1;
    }
    *image = out;
    info.width = #[verifier::truncate] (new_width as u32);
    info.height = #[verifier::truncate] (new_height as u32);
}

/// Along one axis, position `local` of the `s`-th guttered sprite of size `sprite`
/// copies the sprite's pixel `local - 1`; the gutter before the sprite repeats its
/// first pixel and the gutter after it its last.
pub proof fn law_gutter_axis(sprite: int, s: int, local: int)
    requires
        sprite > 0,
        s >= 0,
        0 <= local < sprite + 2,
    ensures
        1 <= local <= sprite ==> gutter_source(s * (sprite + 2) + local, sprite) == s * sprite + (local - 1),
        local == 0 ==> gutter_source(s * (sprite + 2) + local, sprite) == s * sprite,
        local == sprite + 1 ==> gutter_source(s * (sprite + 2) + local, sprite) == s * sprite + sprite - 1,
{
    let x = s * (sprite + 2) + local;
    vstd::arithmetic::div_mod::lemma_fundamental_div_mod_converse(x, sprite + 2, s, local);
}

/// Every byte of a pixel inside a guttered sprite is the same byte of the pixel the
/// sprite sheet held there: pixel `(lx, ly)` (counted from 1) of the sprite in column
/// `sx` and row `sy` copies pixel `(lx - 1, ly - 1)` of that sprite.
pub proof fn law_gutter_copies_sprites(bpp: int, nx: int, width: int, sprite_width: int, sprite_height: int, sx: int, sy: int, lx: int, ly: int, b: int)
    requires
        sprite_width > 0,
        sprite_height > 0,
        0 <= sx < nx,
        0 <= sy,
        1 <= lx <= sprite_width,
        1 <= ly <= sprite_height,
        0 <= b < bpp,
    ensures
        ({
            let new_width = nx * (sprite_width + 2);
            let x = sx * (sprite_width + 2) + lx;
            let y = sy * (sprite_height + 2) + ly;
            gutter_byte_source((y * new_width + x) * bpp + b, bpp, new_width, width, sprite_width, sprite_height)
                == ((sy * sprite_height + ly - 1) * width + sx * sprite_width + lx - 1) * bpp + b
        }),
{
    let new_width = nx * (sprite_width + 2);
    let x = sx * (sprite_width + 2) + lx;
    let y = sy * (sprite_height + 2) + ly;
    let pixel = y * new_width + x;
    let k = sprite_width + 2;
    assert(sx * k + k <= nx * k) by (nonlinear_arith)
        requires
            sx + 1 <= nx,
            k > 0;
    assert(x < new_width);
    assert(0 <= x && 0 <= y && 0 <= pixel) by (nonlinear_arith)
        requires
            x == sx * (sprite_width + 2) + lx,
            y == sy * (sprite_height + 2) + ly,
            pixel == y * new_width + x,
            new_width == nx * (sprite_width + 2),
            0 <= sx < nx,
            0 <= sy,
            1 <= lx,
            1 <= ly,
            sprite_width > 0,
            sprite_height > 0;
    vstd::arithmetic::div_mod::lemma_fundamental_div_mod_converse(pixel * bpp + b, bpp, pixel, b);
    vstd::arithmetic::div_mod::lemma_fundamental_div_mod_converse(pixel, new_width, y, x);
    law_gutter_axis(sprite_width, sx, lx);
    law_gutter_axis(sprite_height, sy, ly);
}

} // verus!
