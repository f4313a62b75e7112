//! Bilinear resizing of interleaved RGBA images.

use vstd::prelude::*;
use vstd::slice::slice_to_vec;
use crate::error::StylizerError;
use crate::fixed::{round_div_spec, lemma_round_div_bounds, lemma_floor_div_bounds};

verus! {

/// Whether `buf` is a `w` by `h` image: neither side is zero and the
/// buffer holds four bytes for each pixel.
pub open spec fn is_image(buf: Seq<u8>, w: int, h: int) -> bool {
    w > 0 && h > 0 && buf.len() == w * h * 4
}

/// The source row or column just below the point that destination index
/// `i` maps to, on an axis of `src_n` source and `dst_n` destination texels.
pub open spec fn axis_low(i: int, src_n: int, dst_n: int) -> int {
    (i * (src_n - 1)) / dst_n
}

/// The neighbour after [`axis_low`], held back at the last row or column.
pub open spec fn axis_high(i: int, src_n: int, dst_n: int) -> int {
    if axis_low(i, src_n, dst_n) + 1 < src_n {
        axis_low(i, src_n, dst_n) + 1
    } else {
        src_n - 1
    }
}

/// How far the mapped point lies from [`axis_low`] towards [`axis_high`],
/// in units of `1 / dst_n`.
pub open spec fn axis_weight(i: int, src_n: int, dst_n: int) -> int {
    (i * (src_n - 1)) % dst_n
}

/// Channel `c` of the pixel in column `x` and row `y` of an image `w` wide.
pub open spec fn texel(image: Seq<u8>, w: int, x: int, y: int, c: int) -> int {
    image[(y * w + x) * 4 + c] as int
}

/// The weighted sum of two values, `weight` parts of `b` in `total`.
pub open spec fn mix(a: int, b: int, weight: int, total: int) -> int {
    a * (total - weight) + b * weight
}

/// Channel `c` of destination pixel (`x`, `y`): the four neighbouring
/// source texels interpolated along both axes, rounded to nearest.
pub open spec fn resize_sample(
    src: Seq<u8>,
    src_w: int,
    src_h: int,
    dst_w: int,
    dst_h: int,
    x: int,
    y: int,
    c: int,
) -> int {
    let xl = axis_low(x, src_w, dst_w);
    let xh = axis_high(x, src_w, dst_w);
    let xw = axis_weight(x, src_w, dst_w);
    let yl = axis_low(y, src_h, dst_h);
    let yh = axis_high(y, src_h, dst_h);
    let yw = axis_weight(y, src_h, dst_h);
    let upper = mix(texel(src, src_w, xl, yl, c), texel(src, src_w, xh, yl, c), xw, dst_w);
    let lower = mix(texel(src, src_w, xl, yh, c), texel(src, src_w, xh, yh, c), xw, dst_w);
    round_div_spec(mix(upper, lower, yw, dst_h), dst_w * dst_h)
}

/// The resized image. Equal dimensions give the source itself.
pub open spec fn resize_spec(src: Seq<u8>, src_w: int, src_h: int, dst_w: int, dst_h: int) -> Seq<
    u8,
> {
    if src_w == dst_w && src_h == dst_h {
        src
    } else {
        Seq::new(
            (dst_w * dst_h * 4) as nat,
            |i: int|
                resize_sample(src, src_w, src_h, dst_w, dst_h, (i / 4) % dst_w, (i / 4) / dst_w, i % 4) as u8,
        )
    }
}

/// Whether a resize from the one geometry to the other is accepted.
pub open spec fn resize_accepts(src: Seq<u8>, src_w: int, src_h: int, dst_w: int, dst_h: int) -> bool {
    &&& is_image(src, src_w, src_h)
    &&& dst_w > 0
    &&& dst_h > 0
    &&& dst_w * dst_h * 4 <= usize::MAX
}

/// Resizing an image to its own dimensions gives the image back, byte for
/// byte.
pub proof fn lemma_resize_identity(src: Seq<u8>, w: int, h: int)
    requires
        is_image(src, w, h),
    ensures
        resize_spec(src, w, h, w, h) == src,
{
}

/// A resized image has four bytes for each destination pixel.
pub proof fn lemma_resize_len(src: Seq<u8>, src_w: int, src_h: int, dst_w: int, dst_h: int)
    requires
        is_image(src, src_w, src_h),
        dst_w > 0,
        dst_h > 0,
    ensures
        is_image(resize_spec(src, src_w, src_h, dst_w, dst_h), dst_w, dst_h),
{
    assert(dst_w * dst_h * 4 >= 0) by (nonlinear_arith)
        requires
            dst_w > 0,
            dst_h > 0,
    ;
}

/// The neighbours of a destination index lie on the source axis.
pub proof fn lemma_axis_in_range(i: int, src_n: int, dst_n: int)
    requires
        0 <= i < dst_n,
        0 < src_n,
    ensures
        0 <= axis_low(i, src_n, dst_n) < src_n,
        axis_low(i, src_n, dst_n) <= axis_high(i, src_n, dst_n) < src_n,
        0 <= axis_weight(i, src_n, dst_n) < dst_n,
{
    let n = i * (src_n - 1);
    lemma_floor_div_bounds(n, dst_n);
    vstd::arithmetic::div_mod::lemma_mod_bound(n, dst_n);
    let q = n / dst_n;
    assert(0 <= n <= (dst_n - 1) * (src_n - 1)) by (nonlinear_arith)
        requires
            n == i * (src_n - 1),
            0 <= i < dst_n,
            0 < src_n,
    ;
    assert(0 <= q < src_n) by (nonlinear_arith)
        requires
            dst_n > 0,
            src_n > 0,
            dst_n * q <= n,
            n < dst_n * q + dst_n,
            0 <= n <= (dst_n - 1) * (src_n - 1),
    ;
}

/// A texel inside the image lies inside its buffer.
pub proof fn lemma_texel_index(w: int, h: int, x: int, y: int, c: int)
    requires
        0 <= x < w,
        0 <= y < h,
        0 <= c < 4,
    ensures
        0 <= (y * w + x) * 4 + c < w * h * 4,
        0 <= y * w <= y * w + x < w * h,
{
    assert(0 <= y * w && y * w + x < w * h) by (nonlinear_arith)
        requires
            0 <= x < w,
            0 <= y < h,
    ;
}

/// A mix of two bytes, weighted within its total, is a byte times the total.
pub proof fn lemma_mix_bounds(a: int, b: int, weight: int, total: int, limit: int)
    requires
        0 <= a <= limit,
        0 <= b <= limit,
        0 <= weight <= total,
    ensures
        0 <= mix(a, b, weight, total) <= limit * total,
{
    assert(0 <= a * (total - weight) + b * weight <= limit * total) by (nonlinear_arith)
        requires
            0 <= a <= limit,
            0 <= b <= limit,
            0 <= weight <= total,
    ;
}

/// An interpolated sample is a byte.
pub proof fn lemma_resize_sample_is_byte(
    src: Seq<u8>,
    src_w: int,
    src_h: int,
    dst_w: int,
    dst_h: int,
    x: int,
    y: int,
    c: int,
)
    requires
        is_image(src, src_w, src_h),
        0 <= x < dst_w,
        0 <= y < dst_h,
        0 <= c < 4,
    ensures
        0 <= resize_sample(src, src_w, src_h, dst_w, dst_h, x, y, c) <= 255,
{
    let xw = axis_weight(x, src_w, dst_w);
    let yw = axis_weight(y, src_h, dst_h);
    let xl = axis_low(x, src_w, dst_w);
    let xh = axis_high(x, src_w, dst_w);
    let yl = axis_low(y, src_h, dst_h);
    let yh = axis_high(y, src_h, dst_h);
    lemma_axis_in_range(x, src_w, dst_w);
    lemma_axis_in_range(y, src_h, dst_h);
    let upper = mix(texel(src, src_w, xl, yl, c), texel(src, src_w, xh, yl, c), xw, dst_w);
    let lower = mix(texel(src, src_w, xl, yh, c), texel(src, src_w, xh, yh, c), xw, dst_w);
    lemma_mix_bounds(texel(src, src_w, xl, yl, c), texel(src, src_w, xh, yl, c), xw, dst_w, 255);
    lemma_mix_bounds(texel(src, src_w, xl, yh, c), texel(src, src_w, xh, yh, c), xw, dst_w, 255);
    lemma_mix_bounds(upper, lower, yw, dst_h, 255 * dst_w);
    let total = mix(upper, lower, yw, dst_h);
    let area = dst_w * dst_h;
    assert(area > 0 && (255 * dst_w) * dst_h == 255 * area) by (nonlinear_arith)
        requires
            area == dst_w * dst_h,
            dst_w > 0,
            dst_h > 0,
    ;
    lemma_round_div_bounds(total, area);
    let q = round_div_spec(total, area);
    assert(0 <= q <= 255) by (nonlinear_arith)
        requires
            area > 0,
            0 <= total <= 255 * area,
            2 * area * q <= 2 * total + area,
            2 * total + area < 2 * area * q + 2 * area,
    ;
}

/// Whether every pixel of the `w` by `h` image has the four channels of
/// `colour`.
pub open spec fn is_uniform(image: Seq<u8>, w: int, h: int, colour: Seq<u8>) -> bool {
    &&& is_image(image, w, h)
    &&& colour.len() == 4
    &&& forall|i: int| 0 <= i < image.len() ==> image[i] == colour[i % 4]
}

/// An image of one colour is of that colour at every size.
pub proof fn lemma_resize_uniform(
    src: Seq<u8>,
    src_w: int,
    src_h: int,
    dst_w: int,
    dst_h: int,
    colour: Seq<u8>,
)
    requires
        is_uniform(src, src_w, src_h, colour),
        dst_w > 0,
        dst_h > 0,
    ensures
        is_uniform(resize_spec(src, src_w, src_h, dst_w, dst_h), dst_w, dst_h, colour),
{
    let out = resize_spec(src, src_w, src_h, dst_w, dst_h);
    lemma_resize_len(src, src_w, src_h, dst_w, dst_h);
    if !(src_w == dst_w && src_h == dst_h) {
        let area = dst_w * dst_h;
        assert(area > 0) by (nonlinear_arith)
            requires
                area == dst_w * dst_h,
                dst_w > 0,
                dst_h > 0,
        ;
        assert forall|i: int| 0 <= i < out.len() implies out[i] == colour[i % 4] by {
            let pixel = i / 4;
            let x = pixel % dst_w;
            let y = pixel / dst_w;
            let c = i % 4;
            lemma_floor_div_bounds(pixel, dst_w);
            vstd::arithmetic::div_mod::lemma_mod_bound(pixel, dst_w);
            assert(0 <= y < dst_h) by (nonlinear_arith)
                requires
                    dst_w > 0,
                    0 <= pixel < dst_w * dst_h,
                    dst_w * y <= pixel,
                    pixel < dst_w * y + dst_w,
            ;
            lemma_axis_in_range(x, src_w, dst_w);
            lemma_axis_in_range(y, src_h, dst_h);
            let xl = axis_low(x, src_w, dst_w);
            let xh = axis_high(x, src_w, dst_w);
            let xw = axis_weight(x, src_w, dst_w);
            let yl = axis_low(y, src_h, dst_h);
            let yh = axis_high(y, src_h, dst_h);
            let yw = axis_weight(y, src_h, dst_h);
            let value = colour[c] as int;
            lemma_texel_index(src_w, src_h, xl, yl, c);
            lemma_texel_index(src_w, src_h, xh, yl, c);
            lemma_texel_index(src_w, src_h, xl, yh, c);
            lemma_texel_index(src_w, src_h, xh, yh, c);
            assert(texel(src, src_w, xl, yl, c) == value);
            assert(texel(src, src_w, xh, yl, c) == value);
            assert(texel(src, src_w, xl, yh, c) == value);
            assert(texel(src, src_w, xh, yh, c) == value);
            let row = mix(value, value, xw, dst_w);
            assert(row == value * dst_w) by (nonlinear_arith)
                requires
                    row == value * (dst_w - xw) + value * xw,
            ;
            let total = mix(row, row, yw, dst_h);
            assert(total == value * area) by (nonlinear_arith)
                requires
                    total == row * (dst_h - yw) + row * yw,
                    row == value * dst_w,
                    area == dst_w * dst_h,
            ;
            assert((2 * area) * value <= 2 * total + area < (2 * area) * value + 2 * area)
                by (nonlinear_arith)
                requires
                    total == value * area,
                    area > 0,
            ;
            crate::fixed::lemma_div_unique(2 * total + area, 2 * area, value);
            assert(resize_sample(src, src_w, src_h, dst_w, dst_h, x, y, c) == value);
        }
    }
}

/// The two neighbours and the weight of destination index `i` on one axis.
fn axis(i: u32, src_n: u32, dst_n: u32) -> (r: (u32, u32, u32))
    requires
        i < dst_n,
        0 < src_n,
    ensures
        r.0 == axis_low(i as int, src_n as int, dst_n as int),
        r.1 == axis_high(i as int, src_n as int, dst_n as int),
        r.2 == axis_weight(i as int, src_n as int, dst_n as int),
{
    proof {
        lemma_axis_in_range(i as int, src_n as int, dst_n as int);
        assert(0 <= i * (src_n - 1) <= 0xffff_ffff * 0xffff_ffff) by (nonlinear_arith)
            requires
                0 <= i <= 0xffff_ffff,
                0 < src_n <= 0xffff_ffff,
        ;
    }
    let mapped: u64 = (i as u64) * ((src_n - 1) as u64);
    let low: u32 = (mapped / (dst_n as u64)) as u32;
    let weight: u32 = (mapped % (dst_n as u64)) as u32;
    let high: u32 = if low + 1 < src_n {
        low + 1
    } else {
        src_n - 1
    };
    (low, high, weight)
}

/// Reads channel `c` of the pixel at (`x`, `y`).
fn read_texel(src: &[u8], w: u32, h: u32, x: u32, y: u32, c: usize) -> (v: u8)
    requires
        is_image(src@, w as int, h as int),
        x < w,
        y < h,
        c < 4,
    ensures
        v == texel(src@, w as int, x as int, y as int, c as int),
{
    let len: usize = src.len();
    proof {
        lemma_texel_index(w as int, h as int, x as int, y as int, c as int);
        assert(w * h * 4 == len);
    }
    let row: usize = (y as usize) * (w as usize);
    src[(row + x as usize) * 4 + c]
}

/// Interpolates channel `c` of one destination pixel from the neighbours
/// and weights that [`axis`] found for its column and its row.
fn sample(
    src: &[u8],
    src_w: u32,
    src_h: u32,
    dst_w: u32,
    dst_h: u32,
    x: u32,
    y: u32,
    col: (u32, u32, u32),
    row: (u32, u32, u32),
    c: usize,
) -> (v: u8)
    requires
        is_image(src@, src_w as int, src_h as int),
        x < dst_w,
        y < dst_h,
        c < 4,
        col.0 == axis_low(x as int, src_w as int, dst_w as int),
        col.1 == axis_high(x as int, src_w as int, dst_w as int),
        col.2 == axis_weight(x as int, src_w as int, dst_w as int),
        row.0 == axis_low(y as int, src_h as int, dst_h as int),
        row.1 == axis_high(y as int, src_h as int, dst_h as int),
        row.2 == axis_weight(y as int, src_h as int, dst_h as int),
    ensures
        v == resize_sample(
            src@,
            src_w as int,
            src_h as int,
            dst_w as int,
            dst_h as int,
            x as int,
            y as int,
            c as int,
        ),
{
    proof {
        lemma_axis_in_range(x as int, src_w as int, dst_w as int);
        lemma_axis_in_range(y as int, src_h as int, dst_h as int);
    }
    let p00: u128 = read_texel(src, src_w, src_h, col.0, row.0, c) as u128;
    let p10: u128 = read_texel(src, src_w, src_h, col.1, row.0, c) as u128;
    let p01: u128 = read_texel(src, src_w, src_h, col.0, row.1, c) as u128;
    let p11: u128 = read_texel(src, src_w, src_h, col.1, row.1, c) as u128;
    let xw: u128 = col.2 as u128;
    let yw: u128 = row.2 as u128;
    let width: u128 = dst_w as u128;
    let height: u128 = dst_h as u128;
    proof {
        lemma_mix_bounds(p00 as int, p10 as int, xw as int, width as int, 255);
        lemma_mix_bounds(p01 as int, p11 as int, xw as int, width as int, 255);
        let upper = mix(p00 as int, p10 as int, xw as int, width as int);
        let lower = mix(p01 as int, p11 as int, xw as int, width as int);
        lemma_mix_bounds(upper, lower, yw as int, height as int, 255 * width);
        lemma_mix_bounds(p00 as int, 0, xw as int, width as int, 255);
        lemma_mix_bounds(0, p10 as int, xw as int, width as int, 255);
        lemma_mix_bounds(p01 as int, 0, xw as int, width as int, 255);
        lemma_mix_bounds(0, p11 as int, xw as int, width as int, 255);
        lemma_mix_bounds(upper, 0, yw as int, height as int, 255 * width);
        lemma_mix_bounds(0, lower, yw as int, height as int, 255 * width);
        assert(0 < width * height <= 0xffff_ffff * 0xffff_ffff && (255 * width) * height == 255 * (
        width * height)) by (nonlinear_arith)
            requires
                0 < width <= 0xffff_ffff,
                0 < height <= 0xffff_ffff,
        ;
        lemma_resize_sample_is_byte(
            src@,
            src_w as int,
            src_h as int,
            dst_w as int,
            dst_h as int,
            x as int,
            y as int,
            c as int,
        );
    }
    let upper: u128 = p00 * (width - xw) + p10 * xw;
    let lower: u128 = p01 * (width - xw) + p11 * xw;
    let total: u128 = upper * (height - yw) + lower * yw;
    let area: u128 = width * height;
    let q: u128 = (2 * total + area) / (2 * area);
    q as u8
}

/// Resizes a `src_w` by `src_h` RGBA image to `dst_w` by `dst_h`.
///
/// Every channel, alpha included, is interpolated between the four source
/// texels around the point that the destination pixel maps to; at the
/// last row and column the neighbour is the edge texel itself. Where the
/// two geometries are equal the result is a copy of the source.
///
/// Refused with `InvalidDimensions`: a side of zero, a source buffer that
/// is not `src_w * src_h * 4` bytes long, and a destination too large for
/// this machine to index.
pub fn resize_rgba(src: &[u8], src_w: u32, src_h: u32, dst_w: u32, dst_h: u32) -> (r: Result<
    Vec<u8>,
    StylizerError,
>)
    ensures
        resize_accepts(src@, src_w as int, src_h as int, dst_w as int, dst_h as int) ==> r is Ok
            && r->Ok_0@ == resize_spec(src@, src_w as int, src_h as int, dst_w as int, dst_h as int),
        !resize_accepts(src@, src_w as int, src_h as int, dst_w as int, dst_h as int) ==> r
            == Err::<Vec<u8>, StylizerError>(StylizerError::InvalidDimensions),
{
    if src_w == 0 || src_h == 0 || dst_w == 0 || dst_h == 0 {
        return Err(StylizerError::InvalidDimensions);
    }
    assert(src_w * src_h * 4 <= 0xffff_ffff * 0xffff_ffff * 4 && dst_w * dst_h * 4 <= 0xffff_ffff
        * 0xffff_ffff * 4 && dst_w * dst_h > 0) by (nonlinear_arith)
        requires
            0 < src_w <= 0xffff_ffff,
            0 < src_h <= 0xffff_ffff,
            0 < dst_w <= 0xffff_ffff,
            0 < dst_h <= 0xffff_ffff,
    ;
    let src_len: u128 = (src_w as u128) * (src_h as u128) * 4;
    if src.len() as u128 != src_len {
        return Err(StylizerError::InvalidDimensions);
    }
    let dst_len: u128 = (dst_w as u128) * (dst_h as u128) * 4;
    if dst_len > usize::MAX as u128 {
        return Err(StylizerError::InvalidDimensions);
    }
    if src_w == dst_w && src_h == dst_h {
        return Ok(slice_to_vec(src));
    }
    let pixels: usize = (dst_len / 4) as usize;
    let mut out: Vec<u8> = Vec::with_capacity(dst_len as usize);
    let mut p: usize = 0;
    while p < pixels
        invariant
            is_image(src@, src_w as int, src_h as int),
            dst_w > 0,
            dst_h > 0,
            !(src_w == dst_w && src_h == dst_h),
            pixels == dst_w * dst_h,
            pixels * 4 <= usize::MAX,
            0 <= p <= pixels,
            out@.len() == p * 4,
            forall|k: int|
                0 <= k < p * 4 ==> out@[k] == resize_spec(
                    src@,
                    src_w as int,
                    src_h as int,
                    dst_w as int,
                    dst_h as int,
                )[k],
        decreases pixels - p,
    {
        proof {
            lemma_floor_div_bounds(p as int, dst_w as int);
            vstd::arithmetic::div_mod::lemma_mod_bound(p as int, dst_w as int);
            assert(p / (dst_w as usize) < dst_h) by (nonlinear_arith)
                requires
                    dst_w > 0,
                    dst_w * (p / (dst_w as usize)) <= p,
                    p < dst_w * dst_h,
            ;
        }
        let x: u32 = (p % (dst_w as usize)) as u32;
        let y: u32 = (p / (dst_w as usize)) as u32;
        let col = axis(x, src_w, dst_w);
        let row = axis(y, src_h, dst_h);
        let ghost before = out@;
        let r: u8 = sample(src, src_w, src_h, dst_w, dst_h, x, y, col, row, 0);
        let g: u8 = sample(src, src_w, src_h, dst_w, dst_h, x, y, col, row, 1);
        let b: u8 = sample(src, src_w, src_h, dst_w, dst_h, x, y, col, row, 2);
        let a: u8 = sample(src, src_w, src_h, dst_w, dst_h, x, y, col, row, 3);
        out.push(r);
        out.push(g);
        out.push(b);
        out.push(a);
        proof {
            assert forall|k: int| 0 <= k < (p + 1) * 4 implies out@[k] == resize_spec(
                src@,
                src_w as int,
                src_h as int,
                dst_w as int,
                dst_h as int,
            )[k] by {
                if k < p * 4 {
                    assert(out@[k] == before[k]);
                } else {
                    assert(k / 4 == p);
                }
            }
        }
        p += 1;
    }
    assert(out@ =~= resize_spec(src@, src_w as int, src_h as int, dst_w as int, dst_h as int));
    Ok(out)
}

} // verus!
