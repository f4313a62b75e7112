//! The pixel/tensor codec: interleaved RGBA bytes to planar tensors and
//! back.
//!
//! A tensor value is held exactly, as a whole number of steps. The step
//! of a channel is the millionth divided by `255 * |std|` of that channel:
//! in that unit the value of every colour byte is a whole number, so that
//! encoding loses nothing and decoding an encoded image gives it back.

use vstd::prelude::*;
use crate::blend::is_opaque;
use crate::error::StylizerError;
use crate::fixed::{UNIT, clamp_spec, floor_div, floor_div_spec, lemma_div_unique, lemma_floor_div_bounds};
use crate::profile::Profile;
use crate::resize::is_image;

verus! {

/// Tensor values at or beyond this many steps decode to 0 or to 255
/// whatever the profile.
pub const DECODE_REACH: i128 = 0x1_0000_0000_0000_0000_0000_0000;

/// 1 for a positive number, -1 for any other.
pub open spec fn sign_spec(x: int) -> int {
    if x > 0 {
        1
    } else {
        -1
    }
}

/// How many steps of a channel with deviation `s` make one millionth.
pub open spec fn steps_per_millionth_spec(s: int) -> int {
    if s > 0 {
        255 * s
    } else {
        -(255 * s)
    }
}

/// The tensor value of colour byte `b`, `((b / 255 - m) / s) * k`, in
/// steps: exactly `(b * UNIT - 255 * m) * k` with the sign of `s`. `m`, `s`
/// and `k` are in millionths.
pub open spec fn encode_value(b: u8, m: int, s: int, k: int) -> int {
    (b * UNIT - 255 * m) * k * sign_spec(s)
}

/// The colour byte of a tensor value of `t` steps: `((t / k) * s + m) *
/// 255`, limited to 0..=255 and then cut to a whole number.
pub open spec fn decode_value(t: int, m: int, s: int, k: int) -> int {
    let n = t * sign_spec(s) + 255 * (m * k);
    let d = k * UNIT;
    if d > 0 {
        clamp_spec(floor_div_spec(n, d), 0, 255)
    } else {
        clamp_spec(floor_div_spec(-n, -d), 0, 255)
    }
}

/// Whether `tensor` holds three planes of `w` by `h` values.
pub open spec fn is_tensor(tensor: Seq<i128>, w: int, h: int) -> bool {
    w > 0 && h > 0 && tensor.len() == 3 * (w * h)
}

/// The tensor of an image: plane `c` holds, at `y * w + x`, the encoded
/// channel `c` of pixel (`x`, `y`). Alpha is not carried.
pub open spec fn encode_spec(image: Seq<u8>, w: int, h: int, profile: Profile) -> Seq<i128> {
    Seq::new(
        (3 * (w * h)) as nat,
        |i: int|
            encode_value(
                image[(i % (w * h)) * 4 + i / (w * h)],
                profile.mean_spec(i / (w * h)),
                profile.std_spec(i / (w * h)),
                profile.scale_spec(),
            ) as i128,
    )
}

/// The image of a tensor: channel `c` of pixel `p` is decoded from plane
/// `c` at `p`; every alpha byte is 255.
pub open spec fn decode_spec(tensor: Seq<i128>, w: int, h: int, profile: Profile) -> Seq<u8> {
    Seq::new(
        (4 * (w * h)) as nat,
        |i: int|
            if i % 4 == 3 {
                255u8
            } else {
                decode_value(
                    tensor[(i % 4) * (w * h) + i / 4] as int,
                    profile.mean_spec(i % 4),
                    profile.std_spec(i % 4),
                    profile.scale_spec(),
                ) as u8
            },
    )
}

/// Whether a tensor of that geometry can be decoded on this machine.
pub open spec fn decode_accepts(tensor: Seq<i128>, w: int, h: int) -> bool {
    is_tensor(tensor, w, h) && 4 * (w * h) <= usize::MAX
}

/// The largest magnitude an encoded value can have.
pub open spec fn encode_limit() -> int {
    255 * (UNIT + 0x8000_0000) * 0x8000_0000
}

/// An encoded value is far within the reach of decoding.
pub proof fn lemma_encode_value_fits(b: u8, m: i32, s: i32, k: i32)
    ensures
        -encode_limit() <= encode_value(b, m as int, s as int, k as int) <= encode_limit(),
        encode_limit() < DECODE_REACH,
{
    let limit = encode_limit();
    let centred = b * UNIT - 255 * m;
    let n = centred * k;
    assert(-limit <= n <= limit) by (nonlinear_arith)
        requires
            n == centred * k,
            -255 * (1_000_000 + 0x8000_0000) <= centred <= 255 * (1_000_000 + 0x8000_0000),
            -0x8000_0000 <= k <= 0x8000_0000,
            limit == 255 * (1_000_000 + 0x8000_0000) * 0x8000_0000,
    ;
    assert(n * 1 == n && n * -1 == -n) by (nonlinear_arith);
}

/// The encoded value is the formula's value to the step: multiplied by
/// `255 * s`, the divisor of the formula, it is the formula's numerator
/// `(b * UNIT - 255 * m) * k` times the steps in a millionth.
pub proof fn lemma_encode_value_exact(b: u8, m: int, s: int, k: int)
    requires
        s != 0,
    ensures
        encode_value(b, m, s, k) * (255 * s) == ((b * UNIT - 255 * m) * k) * steps_per_millionth_spec(
            s,
        ),
{
    let n = (b * UNIT - 255 * m) * k;
    if s > 0 {
        assert((n * 1) * (255 * s) == n * (255 * s)) by (nonlinear_arith);
    } else {
        assert((n * -1) * (255 * s) == n * (255 * (-s))) by (nonlinear_arith);
    }
}

/// A numerator of at least 255 divisors gives at least 255, a negative one
/// gives less than 0.
pub proof fn lemma_floor_saturates(n: int, d: int)
    requires
        d > 0,
    ensures
        n >= 255 * d ==> floor_div_spec(n, d) >= 255,
        n < 0 ==> floor_div_spec(n, d) < 0,
{
    let q = floor_div_spec(n, d);
    lemma_floor_div_bounds(n, d);
    if n >= 255 * d {
        assert(q >= 255) by (nonlinear_arith)
            requires
                d > 0,
                n >= 255 * d,
                n < d * q + d,
        ;
    }
    if n < 0 {
        assert(q < 0) by (nonlinear_arith)
            requires
                d > 0,
                n < 0,
                d * q <= n,
        ;
    }
}

/// A tensor value at or beyond [`DECODE_REACH`] decodes to 255 or to 0,
/// by its sign and the signs of the deviation and the scale.
pub proof fn lemma_decode_saturates(t: int, m: i32, s: i32, k: i32)
    requires
        k != 0,
        t >= DECODE_REACH || t <= -DECODE_REACH,
    ensures
        decode_value(t, m as int, s as int, k as int) == (if (t > 0) == ((s > 0) == (k > 0)) {
            255int
        } else {
            0int
        }),
{
    let turned = t * sign_spec(s as int);
    assert(t * 1 == t && t * -1 == -t) by (nonlinear_arith);
    let offset = 255 * (m * k);
    assert(-255 * (0x8000_0000 * 0x8000_0000) <= offset <= 255 * (0x8000_0000 * 0x8000_0000))
        by (nonlinear_arith)
        requires
            offset == 255 * (m * k),
            -0x8000_0000 <= m <= 0x8000_0000,
            -0x8000_0000 <= k <= 0x8000_0000,
    ;
    let n = turned + offset;
    let d = k * UNIT;
    assert(UNIT == 1_000_000);
    if d > 0 {
        lemma_floor_saturates(n, d);
    } else {
        lemma_floor_saturates(-n, -d);
    }
}

/// Decoding the encoded value of a colour byte gives the byte.
pub proof fn lemma_round_trip_value(b: u8, m: int, s: int, k: int)
    requires
        k != 0,
    ensures
        decode_value(encode_value(b, m, s, k), m, s, k) == b,
{
    let u = UNIT as int;
    let t = encode_value(b, m, s, k);
    let n = t * sign_spec(s) + 255 * (m * k);
    let d = k * u;
    let centred = b * u - 255 * m;
    if s > 0 {
        assert((centred * k * 1) * 1 + 255 * (m * k) == b * (k * u)) by (nonlinear_arith)
            requires
                centred == b * u - 255 * m,
        ;
    } else {
        assert((centred * k * -1) * -1 + 255 * (m * k) == b * (k * u)) by (nonlinear_arith)
            requires
                centred == b * u - 255 * m,
        ;
    }
    assert(n == b * d);
    assert(d != 0) by (nonlinear_arith)
        requires
            d == k * u,
            u == 1_000_000,
            k != 0,
    ;
    if d > 0 {
        assert(d * b == b * d) by (nonlinear_arith);
        lemma_div_unique(n, d, b as int);
    } else {
        assert((-d) * b == -(b * d)) by (nonlinear_arith);
        lemma_div_unique(-n, -d, b as int);
    }
}

/// Decoding an encoded image gives the image back: every colour byte as
/// it was, the alpha channel opaque. An opaque image comes back whole.
pub proof fn lemma_round_trip(image: Seq<u8>, w: int, h: int, profile: Profile)
    requires
        is_image(image, w, h),
        profile.is_valid(),
    ensures
        is_tensor(encode_spec(image, w, h, profile), w, h),
        decode_spec(encode_spec(image, w, h, profile), w, h, profile).len() == image.len(),
        forall|i: int|
            0 <= i < image.len() ==> #[trigger] decode_spec(
                encode_spec(image, w, h, profile),
                w,
                h,
                profile,
            )[i] == (if i % 4 == 3 {
                255u8
            } else {
                image[i]
            }),
        is_opaque(image) ==> decode_spec(encode_spec(image, w, h, profile), w, h, profile) == image,
{
    let plane = w * h;
    assert(plane > 0) by (nonlinear_arith)
        requires
            plane == w * h,
            w > 0,
            h > 0,
    ;
    let tensor = encode_spec(image, w, h, profile);
    let back = decode_spec(tensor, w, h, profile);
    profile.lemma_ranges();
    assert forall|i: int| 0 <= i < image.len() implies back[i] == (if i % 4 == 3 {
        255u8
    } else {
        image[i]
    }) by {
        if i % 4 != 3 {
            let c = i % 4;
            let p = i / 4;
            let t = c * plane + p;
            lemma_plane_index(c, p, plane);
            assert(0 <= t < 3 * plane) by (nonlinear_arith)
                requires
                    t == c * plane + p,
                    0 <= c < 3,
                    0 <= p < plane,
            ;
            let byte = image[i];
            assert(p * 4 + c == i);
            let m = profile.mean_spec(c);
            let s = profile.std_spec(c);
            let k = profile.scale_spec();
            assert(tensor[t] == encode_value(byte, m, s, k) as i128);
            lemma_encode_value_fits(byte, m as i32, s as i32, k as i32);
            assert(tensor[t] == encode_value(byte, m, s, k));
            lemma_round_trip_value(byte, m, s, k);
        }
    }
    if is_opaque(image) {
        assert(back =~= image);
    }
}

/// How many steps of a channel with deviation `s` make one millionth:
/// what turns a tensor value into a real number and back.
pub fn steps_per_millionth(s: i32) -> (steps: i64)
    ensures
        steps == steps_per_millionth_spec(s as int),
{
    if s > 0 {
        255 * (s as i64)
    } else {
        255 * (-(s as i64))
    }
}

/// Encodes one colour byte.
pub fn encode_byte(b: u8, m: i32, s: i32, k: i32) -> (t: i128)
    ensures
        t == encode_value(b, m as int, s as int, k as int),
{
    let unit: i128 = 1_000_000;
    assert(unit == UNIT);
    let centred: i128 = (b as i128) * unit - 255 * (m as i128);
    proof {
        lemma_encode_value_fits(b, m, s, k);
        assert(-0x100_0000_0000 * 0x8000_0000 <= centred * k <= 0x100_0000_0000 * 0x8000_0000)
            by (nonlinear_arith)
            requires
                -0x100_0000_0000 <= centred <= 0x100_0000_0000,
                -0x8000_0000 <= k <= 0x8000_0000,
        ;
        assert((centred * k) * 1 == centred * k && (centred * k) * -1 == -(centred * k))
            by (nonlinear_arith);
    }
    let n: i128 = centred * (k as i128);
    if s > 0 {
        n
    } else {
        -n
    }
}

/// Decodes one tensor value.
pub fn decode_byte(t: i128, m: i32, s: i32, k: i32) -> (b: u8)
    requires
        k != 0,
    ensures
        b == decode_value(t as int, m as int, s as int, k as int),
{
    if t >= DECODE_REACH || t <= -DECODE_REACH {
        proof {
            lemma_decode_saturates(t as int, m, s, k);
        }
        return if (t > 0) == ((s > 0) == (k > 0)) {
            255
        } else {
            0
        };
    }
    proof {
        assert(-0x8000_0000 * 0x8000_0000 <= m * k <= 0x8000_0000 * 0x8000_0000 && -0x8000_0000
            * 1_000_000 <= k * 1_000_000 <= 0x8000_0000 * 1_000_000) by (nonlinear_arith)
            requires
                -0x8000_0000 <= m <= 0x8000_0000,
                -0x8000_0000 <= k <= 0x8000_0000,
        ;
        assert((t as int) * 1 == t && (t as int) * -1 == -t) by (nonlinear_arith);
    }
    let unit: i128 = 1_000_000;
    assert(unit == UNIT);
    let turned: i128 = if s > 0 {
        t
    } else {
        -t
    };
    let n: i128 = turned + 255 * ((m as i128) * (k as i128));
    let d: i128 = (k as i128) * unit;
    let q: i128 = if d > 0 {
        floor_div(n, d)
    } else {
        floor_div(-n, -d)
    };
    if q < 0 {
        0
    } else if q > 255 {
        255
    } else {
        q as u8
    }
}

/// Where index `c * plane + p` of a planar tensor lies.
pub proof fn lemma_plane_index(c: int, p: int, plane: int)
    requires
        0 <= c,
        0 <= p < plane,
    ensures
        (c * plane + p) / plane == c,
        (c * plane + p) % plane == p,
{
    vstd::arithmetic::div_mod::lemma_fundamental_div_mod_converse(c * plane + p, plane, c, p);
}

/// Where plane `c` of a planar tensor starts.
pub proof fn lemma_plane_offset(c: int, plane: int)
    requires
        0 <= c < 4,
    ensures
        c == 0 ==> c * plane == 0,
        c == 1 ==> c * plane == plane,
        c == 2 ==> c * plane == 2 * plane,
        c == 3 ==> c * plane == 3 * plane,
{
    assert(0 * plane == 0 && 1 * plane == plane) by (nonlinear_arith);
}

/// Encodes a `w` by `h` RGBA image as a planar tensor of three planes.
///
/// Refused with `InvalidDimensions`: a side of zero, and a buffer that is
/// not `w * h * 4` bytes long.
pub fn encode(image: &[u8], w: u32, h: u32, profile: &Profile) -> (r: Result<
    Vec<i128>,
    StylizerError,
>)
    ensures
        is_image(image@, w as int, h as int) ==> r is Ok && r->Ok_0@ == encode_spec(
            image@,
            w as int,
            h as int,
            *profile,
        ),
        !is_image(image@, w as int, h as int) ==> r == Err::<Vec<i128>, StylizerError>(
            StylizerError::InvalidDimensions,
        ),
{
    if w == 0 || h == 0 {
        return Err(StylizerError::InvalidDimensions);
    }
    assert(0 < w * h <= 0xffff_ffff * 0xffff_ffff) by (nonlinear_arith)
        requires
            0 < w <= 0xffff_ffff,
            0 < h <= 0xffff_ffff,
    ;
    let expected: u128 = (w as u128) * (h as u128) * 4;
    if image.len() as u128 != expected {
        return Err(StylizerError::InvalidDimensions);
    }
    let plane: usize = image.len() / 4;
    let scale: i32 = profile.scale();
    let mut out: Vec<i128> = Vec::with_capacity(plane * 3);
    let mut c: usize = 0;
    while c < 3
        invariant
            is_image(image@, w as int, h as int),
            plane == w * h,
            plane * 4 == image@.len(),
            scale == profile.scale_spec(),
            plane * 4 <= usize::MAX,
            0 <= c <= 3,
            out@.len() == c * plane,
            out@.len() <= 3 * (w * h),
            forall|k: int|
                0 <= k < out@.len() ==> out@[k] == encode_spec(image@, w as int, h as int, *profile)[k],
        decreases 3 - c,
    {
        let mean: i32 = profile.channel_mean(c);
        let std_dev: i32 = profile.channel_std(c);
        let mut p: usize = 0;
        while p < plane
            invariant
                is_image(image@, w as int, h as int),
                plane == w * h,
                plane * 4 == image@.len(),
                scale == profile.scale_spec(),
                mean == profile.mean_spec(c as int),
                std_dev == profile.std_spec(c as int),
                std_dev != 0,
                plane * 4 <= usize::MAX,
                0 <= c < 3,
                0 <= p <= plane,
                out@.len() == c * plane + p,
                out@.len() <= 3 * (w * h),
                forall|k: int|
                    0 <= k < out@.len() ==> out@[k] == encode_spec(
                        image@,
                        w as int,
                        h as int,
                        *profile,
                    )[k],
            decreases plane - p,
        {
            let ghost before = out@;
            let v: i128 = encode_byte(image[p * 4 + c], mean, std_dev, scale);
            out.push(v);
            proof {
                lemma_plane_index(c as int, p as int, plane as int);
                assert(3 * (w * h) == 3 * plane);
                assert(c * plane + p < 3 * plane) by (nonlinear_arith)
                    requires
                        0 <= c < 3,
                        0 <= p < plane,
                ;
                assert forall|k: int| 0 <= k < out@.len() implies out@[k] == encode_spec(
                    image@,
                    w as int,
                    h as int,
                    *profile,
                )[k] by {
                    if k < c * plane + p {
                        assert(out@[k] == before[k]);
                    }
                }
            }
            p += 1;
        }
        proof {
            assert((c + 1) * plane == c * plane + plane) by (nonlinear_arith);
        }
        c += 1;
    }
    assert(out@ =~= encode_spec(image@, w as int, h as int, *profile));
    Ok(out)
}

/// Decodes a planar tensor of three `w` by `h` planes as an RGBA image
/// whose alpha channel is fully opaque.
///
/// Refused with `InvalidDimensions`: a side of zero, a tensor that is not
/// `3 * w * h` values long, and an image too large for this machine to
/// index.
pub fn decode(tensor: &[i128], w: u32, h: u32, profile: &Profile) -> (r: Result<
    Vec<u8>,
    StylizerError,
>)
    ensures
        decode_accepts(tensor@, w as int, h as int) ==> r is Ok && r->Ok_0@ == decode_spec(
            tensor@,
            w as int,
            h as int,
            *profile,
        ),
        !decode_accepts(tensor@, w as int, h as int) ==> r == Err::<Vec<u8>, StylizerError>(
            StylizerError::InvalidDimensions,
        ),
{
    if w == 0 || h == 0 {
        return Err(StylizerError::InvalidDimensions);
    }
    assert(0 < w * h <= 0xffff_ffff * 0xffff_ffff) by (nonlinear_arith)
        requires
            0 < w <= 0xffff_ffff,
            0 < h <= 0xffff_ffff,
    ;
    let area: u128 = (w as u128) * (h as u128);
    if tensor.len() as u128 != 3 * area {
        return Err(StylizerError::InvalidDimensions);
    }
    if 4 * area > usize::MAX as u128 {
        return Err(StylizerError::InvalidDimensions);
    }
    let plane: usize = area as usize;
    let scale: i32 = profile.scale();
    let mean: [i32; 3] = [profile.channel_mean(0), profile.channel_mean(1), profile.channel_mean(2)];
    let std_dev: [i32; 3] = [profile.channel_std(0), profile.channel_std(1), profile.channel_std(2)];
    let mut out: Vec<u8> = Vec::with_capacity(plane * 4);
    let mut p: usize = 0;
    while p < plane
        invariant
            plane == w * h,
            plane * 4 <= usize::MAX,
            tensor@.len() == 3 * plane,
            scale == profile.scale_spec(),
            scale != 0,
            forall|c: int|
                0 <= c < 3 ==> mean[c] == profile.mean_spec(c) && std_dev[c] == profile.std_spec(c),
            0 <= p <= plane,
            out@.len() == p * 4,
            forall|k: int|
                0 <= k < out@.len() ==> out@[k] == decode_spec(tensor@, w as int, h as int, *profile)[k],
        decreases plane - p,
    {
        let ghost before = out@;
        let r: u8 = decode_byte(tensor[p], mean[0], std_dev[0], scale);
        let g: u8 = decode_byte(tensor[plane + p], mean[1], std_dev[1], scale);
        let b: u8 = decode_byte(tensor[2 * plane + p], mean[2], std_dev[2], scale);
        out.push(r);
        out.push(g);
        out.push(b);
        out.push(255);
        proof {
            assert forall|k: int| 0 <= k < out@.len() implies out@[k] == decode_spec(
                tensor@,
                w as int,
                h as int,
                *profile,
            )[k] by {
                if k < p * 4 {
                    assert(out@[k] == before[k]);
                } else {
                    assert(k / 4 == p);
                    lemma_plane_offset(k % 4, plane as int);
                }
            }
        }
        p += 1;
    }
    assert(out@ =~= decode_spec(tensor@, w as int, h as int, *profile));
    Ok(out)
}

} // verus!
