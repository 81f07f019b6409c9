//! Pixel format conversion for captured and decoded pictures.
//!
//! All arithmetic is exact: a coefficient such as 0.299 is the fraction
//! 299/1000, and a sample is the whole part of the exact value, kept within
//! 0..=255.

use vstd::prelude::*;

verus! {

/// A captured camera frame: the I420 planes for the encoder and RGBA for the
/// local preview.
pub struct CapturedFrame {
    pub width: u32,
    pub height: u32,
    /// Y plane, `width * height` bytes.
    pub y: Vec<u8>,
    /// U plane, `(width / 2) * (height / 2)` bytes.
    pub u: Vec<u8>,
    /// V plane, `(width / 2) * (height / 2)` bytes.
    pub v: Vec<u8>,
    /// RGBA, `width * height * 4` bytes.
    pub rgba: Vec<u8>,
}

/// Camera configuration.
#[derive(Debug, Clone, Copy, PartialEq, Eq, Structural)]
pub struct CameraConfig {
    pub width: u32,
    pub height: u32,
    pub fps: u32,
}

impl Default for CameraConfig {
    fn default() -> (c: CameraConfig)
        ensures
            c == (CameraConfig { width: 640, height: 480, fps: 30 }),
    {
        CameraConfig { width: 640, height: 480, fps: 30 }
    }
}

/// A value kept within the range of a byte.
pub open spec fn clamp_byte(x: int) -> u8 {
    if x < 0 {
        0
    } else if x > 255 {
        255
    } else {
        x as u8
    }
}

/// Luma of a pixel: `0.299 R + 0.587 G + 0.114 B`.
pub open spec fn luma(r: u8, g: u8, b: u8) -> u8 {
    clamp_byte((299 * r + 587 * g + 114 * b) / 1000)
}

/// Blue-difference chroma of a pixel: `-0.169 R - 0.331 G + 0.5 B + 128`.
pub open spec fn chroma_u(r: u8, g: u8, b: u8) -> u8 {
    clamp_byte((128000 - 169 * r - 331 * g + 500 * b) / 1000)
}

/// Red-difference chroma of a pixel: `0.5 R - 0.419 G - 0.081 B + 128`.
pub open spec fn chroma_v(r: u8, g: u8, b: u8) -> u8 {
    clamp_byte((128000 + 500 * r - 419 * g - 81 * b) / 1000)
}

/// The pixel whose chroma becomes sample `k` of a chroma plane: the one at
/// the even row and even column `(2 * (k / cw), 2 * (k % cw))`, where `cw`
/// is the width of the chroma plane.
pub open spec fn chroma_pixel(width: int, k: int) -> int {
    let cw = width / 2;
    2 * (k / cw) * width + 2 * (k % cw)
}

/// Luma of pixel `i` of an RGB888 picture.
pub open spec fn luma_at(rgb: Seq<u8>, i: int) -> u8 {
    luma(rgb[3 * i], rgb[3 * i + 1], rgb[3 * i + 2])
}

/// Sample `k` of the U plane of an RGB888 picture.
pub open spec fn chroma_u_at(rgb: Seq<u8>, width: int, k: int) -> u8 {
    let p = chroma_pixel(width, k);
    chroma_u(rgb[3 * p], rgb[3 * p + 1], rgb[3 * p + 2])
}

/// Sample `k` of the V plane of an RGB888 picture.
pub open spec fn chroma_v_at(rgb: Seq<u8>, width: int, k: int) -> u8 {
    let p = chroma_pixel(width, k);
    chroma_v(rgb[3 * p], rgb[3 * p + 1], rgb[3 * p + 2])
}

/// The dimensions that a 4:2:0 picture can have: both even, or no pixel at
/// all.
pub open spec fn subsampled(width: nat, height: nat) -> bool {
    width == 0 || height == 0 || (width % 2 == 0 && height % 2 == 0)
}

fn luma_of(r: u8, g: u8, b: u8) -> (y: u8)
    ensures
        y == luma(r, g, b),
{
    let sum: u32 = 299 * (r as u32) + 587 * (g as u32) + 114 * (b as u32);
    (sum / 1000) as u8
}

fn chroma_u_of(r: u8, g: u8, b: u8) -> (u: u8)
    ensures
        u == chroma_u(r, g, b),
{
    let sum: u32 = 128000 + 500 * (b as u32) - 169 * (r as u32) - 331 * (g as u32);
    (sum / 1000) as u8
}

fn chroma_v_of(r: u8, g: u8, b: u8) -> (v: u8)
    ensures
        v == chroma_v(r, g, b),
{
    let sum: u32 = 128000 + 500 * (r as u32) - 419 * (g as u32) - 81 * (b as u32);
    (sum / 1000) as u8
}

proof fn lemma_chroma_pixel_in_picture(width: int, height: int, k: int)
    requires
        0 <= k,
        0 <= width,
        0 <= height,
        width % 2 == 0,
        height % 2 == 0,
        k < (width / 2) * (height / 2),
    ensures
        width >= 2,
        k / (width / 2) < height / 2,
        k % (width / 2) < width / 2,
        chroma_pixel(width, k) + 1 < width * height,
{
    let cw = width / 2;
    let ch = height / 2;
    assert(cw > 0) by (nonlinear_arith)
        requires
            0 <= k < cw * ch,
            cw >= 0,
    ;
    vstd::arithmetic::div_mod::lemma_fundamental_div_mod(k, cw);
    vstd::arithmetic::div_mod::lemma_mod_bound(k, cw);
    let q = k / cw;
    let r = k % cw;
    assert(q < ch) by (nonlinear_arith)
        requires
            k == cw * q + r,
            0 <= r < cw,
            k < cw * ch,
    ;
    assert(2 * q * width + 2 * r + 1 < width * height) by (nonlinear_arith)
        requires
            0 <= q < ch,
            0 <= r < cw,
            width == 2 * cw,
            height == 2 * ch,
    ;
}

/// Convert RGB888 to the three planes of I420: full-size luma, and chroma
/// taken at every even row and even column.
pub fn rgb_to_i420(rgb: &[u8], width: usize, height: usize) -> (planes: (Vec<u8>, Vec<u8>, Vec<u8>))
    requires
        subsampled(width as nat, height as nat),
        width * height * 3 <= rgb@.len(),
    ensures
        planes.0@.len() == width * height,
        planes.1@.len() == (width / 2) * (height / 2),
        planes.2@.len() == (width / 2) * (height / 2),
        forall|i: int|
            0 <= i < width * height ==> #[trigger] planes.0@[i] == luma_at(rgb@, i),
        forall|k: int|
            0 <= k < (width / 2) * (height / 2) ==> #[trigger] planes.1@[k] == chroma_u_at(rgb@, width as int, k),
        forall|k: int|
            0 <= k < (width / 2) * (height / 2) ==> #[trigger] planes.2@[k] == chroma_v_at(rgb@, width as int, k),
{
    proof {
        assert(vstd::slice::spec_slice_len(rgb) == rgb@.len());
        assert(width * height <= width * height * 3) by (nonlinear_arith);
        assert((width / 2) * (height / 2) <= width * height) by (nonlinear_arith);
    }
    let pixels: usize = width * height;
    let mut y: Vec<u8> = Vec::new();
    let mut i: usize = 0;
    while i < pixels
        invariant
            i <= pixels,
            pixels * 3 <= rgb@.len() <= usize::MAX,
            y@.len() == i,
            forall|j: int|
                0 <= j < i ==> #[trigger] y@[j] == luma_at(rgb@, j),
        decreases pixels - i,
    {
        y.push(luma_of(rgb[3 * i], rgb[3 * i + 1], rgb[3 * i + 2]));
        i += 1;
    }
    let cw: usize = width / 2;
    let ch: usize = height / 2;
    let samples: usize = cw * ch;
    let mut u: Vec<u8> = Vec::new();
    let mut v: Vec<u8> = Vec::new();
    let mut k: usize = 0;
    while k < samples
        invariant
            k <= samples,
            samples == (width / 2) * (height / 2),
            cw == width / 2,
            ch == height / 2,
            pixels == width * height,
            pixels * 3 <= rgb@.len() <= usize::MAX,
            subsampled(width as nat, height as nat),
            u@.len() == k,
            v@.len() == k,
            forall|j: int|
                0 <= j < k ==> #[trigger] u@[j] == chroma_u_at(rgb@, width as int, j),
            forall|j: int|
                0 <= j < k ==> #[trigger] v@[j] == chroma_v_at(rgb@, width as int, j),
        decreases samples - k,
    {
        proof {
            assert(width != 0 && height != 0) by (nonlinear_arith)
                requires
                    k < (width / 2) * (height / 2),
            ;
            lemma_chroma_pixel_in_picture(width as int, height as int, k as int);
            assert(2 * (k / cw) * width == (2 * (k / cw)) * width) by (nonlinear_arith);
            assert(2 * (k / cw) * width >= 0) by (nonlinear_arith)
                requires
                    k / cw >= 0,
                    width >= 0,
            ;
        }
        let row: usize = 2 * (k / cw);
        let at: usize = row * width + 2 * (k % cw);
        let r: u8 = rgb[3 * at];
        let g: u8 = rgb[3 * at + 1];
        let b: u8 = rgb[3 * at + 2];
        u.push(chroma_u_of(r, g, b));
        v.push(chroma_v_of(r, g, b));
        k += 1;
    }
    (y, u, v)
}

/// Pixel `i` of `rgba` is pixel `i` of `rgb`, fully opaque.
pub open spec fn opaque_pixel(rgba: Seq<u8>, rgb: Seq<u8>, i: int) -> bool {
    &&& rgba[4 * i] == rgb[3 * i]
    &&& rgba[4 * i + 1] == rgb[3 * i + 1]
    &&& rgba[4 * i + 2] == rgb[3 * i + 2]
    &&& rgba[4 * i + 3] == 255
}

/// Convert RGB888 to RGBA8888 with full opacity. Bytes behind the last
/// whole pixel are dropped.
pub fn rgb_to_rgba(rgb: &[u8]) -> (rgba: Vec<u8>)
    ensures
        rgba@.len() == 4 * (rgb@.len() / 3),
        forall|i: int| 0 <= i < rgb@.len() / 3 ==> #[trigger] opaque_pixel(rgba@, rgb@, i),
{
    let pixels: usize = rgb.len() / 3;
    let mut rgba: Vec<u8> = Vec::new();
    let mut i: usize = 0;
    while i < pixels
        invariant
            i <= pixels,
            pixels == rgb@.len() / 3,
            rgb@.len() <= usize::MAX,
            rgba@.len() == 4 * i,
            forall|j: int| 0 <= j < i ==> #[trigger] opaque_pixel(rgba@, rgb@, j),
        decreases pixels - i,
    {
        let ghost before = rgba@;
        rgba.push(rgb[3 * i]);
        rgba.push(rgb[3 * i + 1]);
        rgba.push(rgb[3 * i + 2]);
        rgba.push(255);
        proof {
            assert forall|j: int| 0 <= j < i + 1 implies #[trigger] opaque_pixel(
                rgba@,
                rgb@,
                j,
            ) by {
                if j < i {
                    assert(opaque_pixel(before, rgb@, j));
                }
            }
        }
        i += 1;
    }
    rgba
}

/// Red of a decoded sample: `Y + 1.402 (V - 128)`.
pub open spec fn red(y: u8, v: u8) -> u8 {
    clamp_byte((1000 * y + 1402 * (v - 128)) / 1000)
}

/// Green of a decoded sample: `Y - 0.344136 (U - 128) - 0.714136 (V - 128)`.
pub open spec fn green(y: u8, u: u8, v: u8) -> u8 {
    clamp_byte((1000000 * y - 344136 * (u - 128) - 714136 * (v - 128)) / 1000000)
}

/// Blue of a decoded sample: `Y + 1.772 (U - 128)`.
pub open spec fn blue(y: u8, u: u8) -> u8 {
    clamp_byte((1000 * y + 1772 * (u - 128)) / 1000)
}

/// The whole part of `num / den`, kept within the range of a byte.
fn clamped_quotient(num: i64, den: i64) -> (q: u8)
    requires
        den > 0,
    ensures
        q == clamp_byte(num as int / den as int),
{
    if num < 0 {
        proof {
            assert((num as int) / (den as int) < 0) by (nonlinear_arith)
                requires
                    num < 0,
                    den > 0,
            ;
        }
        0
    } else {
        let whole: i64 = num / den;
        if whole > 255 {
            255
        } else {
            whole as u8
        }
    }
}

/// One plane of a decoded picture: its samples and the distance between the
/// starts of two rows.
pub struct Plane<'a> {
    pub samples: &'a [u8],
    pub stride: usize,
}

impl<'a> Plane<'a> {
    /// The plane has a sample for every position of a `width` by `height`
    /// grid.
    pub open spec fn covers(&self, width: nat, height: nat) -> bool {
        width <= self.stride && (height > 0 ==> (height - 1) * self.stride + width
            <= self.samples@.len())
    }

    /// The sample at a position.
    pub open spec fn at(&self, row: int, col: int) -> u8 {
        self.samples@[row * self.stride + col]
    }
}

/// Pixel `p` of `rgba`, counted row by row, shows what the planes hold for
/// its position: each chroma sample serves a block of two by two pixels.
pub open spec fn shows_pixel(rgba: Seq<u8>, y: Plane, u: Plane, v: Plane, width: int, p: int) -> bool {
    let row = p / width;
    let col = p % width;
    &&& rgba[4 * p] == red(y.at(row, col), v.at(row / 2, col / 2))
    &&& rgba[4 * p + 1] == green(y.at(row, col), u.at(row / 2, col / 2), v.at(row / 2, col / 2))
    &&& rgba[4 * p + 2] == blue(y.at(row, col), u.at(row / 2, col / 2))
    &&& rgba[4 * p + 3] == 255
}

/// Convert a decoded I420 picture to RGBA with full opacity.
pub fn i420_to_rgba(y: &Plane, u: &Plane, v: &Plane, width: usize, height: usize) -> (rgba: Vec<u8>)
    requires
        width * height * 4 <= usize::MAX,
        y.covers(width as nat, height as nat),
        u.covers(((width + 1) / 2) as nat, ((height + 1) / 2) as nat),
        v.covers(((width + 1) / 2) as nat, ((height + 1) / 2) as nat),
    ensures
        rgba@.len() == width * height * 4,
        forall|p: int|
            0 <= p < width * height ==> #[trigger] shows_pixel(rgba@, *y, *u, *v, width as int, p),
{
    proof {
        assert(width * height <= width * height * 4) by (nonlinear_arith);
    }
    proof {
        assert(vstd::slice::spec_slice_len(y.samples) == y.samples@.len());
        assert(vstd::slice::spec_slice_len(u.samples) == u.samples@.len());
        assert(vstd::slice::spec_slice_len(v.samples) == v.samples@.len());
    }
    let pixels: usize = width * height;
    let mut rgba: Vec<u8> = Vec::new();
    let mut p: usize = 0;
    while p < pixels
        invariant
            p <= pixels,
            pixels == width * height,
            y.samples@.len() <= usize::MAX,
            u.samples@.len() <= usize::MAX,
            v.samples@.len() <= usize::MAX,
            y.covers(width as nat, height as nat),
            u.covers(((width + 1) / 2) as nat, ((height + 1) / 2) as nat),
            v.covers(((width + 1) / 2) as nat, ((height + 1) / 2) as nat),
            rgba@.len() == 4 * p,
            forall|q: int| 0 <= q < p ==> #[trigger] shows_pixel(rgba@, *y, *u, *v, width as int, q),
        decreases pixels - p,
    {
        proof {
            assert(width > 0 && height > 0) by (nonlinear_arith)
                requires
                    p < width * height,
            ;
            vstd::arithmetic::div_mod::lemma_fundamental_div_mod(p as int, width as int);
            vstd::arithmetic::div_mod::lemma_mod_bound(p as int, width as int);
            let row = (p as int) / (width as int);
            let col = (p as int) % (width as int);
            assert(0 <= row < height) by (nonlinear_arith)
                requires
                    p == width * row + col,
                    0 <= col < width,
                    0 <= p < width * height,
            ;
            assert(row * y.stride + col < y.samples@.len() && row * y.stride >= 0)
                by (nonlinear_arith)
                requires
                    0 <= row < height,
                    0 <= col < width,
                    width <= y.stride,
                    (height - 1) * y.stride + width <= y.samples@.len(),
            ;
            let half_w = (width + 1) / 2;
            let half_h = (height + 1) / 2;
            assert((row / 2) * u.stride + col / 2 < u.samples@.len() && (row / 2) * u.stride >= 0)
                by (nonlinear_arith)
                requires
                    0 <= row / 2 < half_h,
                    0 <= col / 2 < half_w,
                    half_w <= u.stride,
                    (half_h - 1) * u.stride + half_w <= u.samples@.len(),
            ;
            assert((row / 2) * v.stride + col / 2 < v.samples@.len() && (row / 2) * v.stride >= 0)
                by (nonlinear_arith)
                requires
                    0 <= row / 2 < half_h,
                    0 <= col / 2 < half_w,
                    half_w <= v.stride,
                    (half_h - 1) * v.stride + half_w <= v.samples@.len(),
            ;
        }
        let row: usize = p / width;
        let col: usize = p % width;
        let ys: i64 = y.samples[row * y.stride + col] as i64;
        let us: i64 = u.samples[(row / 2) * u.stride + col / 2] as i64 - 128;
        let vs: i64 = v.samples[(row / 2) * v.stride + col / 2] as i64 - 128;
        let ghost before = rgba@;
        rgba.push(clamped_quotient(1000 * ys + 1402 * vs, 1000));
        rgba.push(clamped_quotient(1000000 * ys - 344136 * us - 714136 * vs, 1000000));
        rgba.push(clamped_quotient(1000 * ys + 1772 * us, 1000));
        rgba.push(255);
        proof {
            assert forall|q: int| 0 <= q < p + 1 implies #[trigger] shows_pixel(
                rgba@,
                *y,
                *u,
                *v,
                width as int,
                q,
            ) by {
                if q < p {
                    assert(shows_pixel(before, *y, *u, *v, width as int, q));
                }
            }
        }
        p += 1;
    }
    rgba
}

} // verus!
