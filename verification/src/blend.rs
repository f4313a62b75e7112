//! The blend stage: linear interpolation between two images.

use vstd::prelude::*;
use crate::error::StylizerError;
use crate::fixed::{UNIT, clamp_spec, round_div_spec, lemma_round_div_bounds, lemma_div_unique};

verus! {

/// The strength that is used for a requested one: the nearest value
/// between 0 and [`UNIT`].
pub open spec fn clamp_strength_spec(strength: int) -> int {
    clamp_spec(strength, 0, UNIT as int)
}

/// One blended colour channel: `(1 - s) * o + s * p`, rounded to nearest,
/// for a strength `s` given in millionths.
pub open spec fn blend_channel(o: u8, p: u8, s: int) -> int {
    round_div_spec((UNIT - s) * o + s * p, UNIT as int)
}

/// The blended image: colour channels interpolated, every fourth byte
/// (the alpha channel) fully opaque.
pub open spec fn blend_spec(original: Seq<u8>, produced: Seq<u8>, strength: int) -> Seq<u8> {
    Seq::new(
        original.len(),
        |i: int|
            if i % 4 == 3 {
                255u8
            } else {
                blend_channel(original[i], produced[i], clamp_strength_spec(strength)) as u8
            },
    )
}

/// A blended channel lies between the two channels it was made from.
pub proof fn lemma_blend_channel_between(o: u8, p: u8, s: int)
    requires
        0 <= s <= UNIT,
    ensures
        o <= p ==> o <= blend_channel(o, p, s) <= p,
        p <= o ==> p <= blend_channel(o, p, s) <= o,
        0 <= blend_channel(o, p, s) <= 255,
{
    let u = UNIT as int;
    let n = (u - s) * o + s * p;
    let q = blend_channel(o, p, s);
    lemma_round_div_bounds(n, u);
    if o <= p {
        assert(u * o <= n <= u * p) by (nonlinear_arith)
            requires
                n == (u - s) * o + s * p,
                0 <= s <= u,
                o <= p,
        ;
        assert(o <= q <= p) by (nonlinear_arith)
            requires
                u == 1_000_000,
                u * o <= n <= u * p,
                2 * u * q <= 2 * n + u,
                2 * n + u < 2 * u * q + 2 * u,
        ;
    } else {
        assert(u * p <= n <= u * o) by (nonlinear_arith)
            requires
                n == (u - s) * o + s * p,
                0 <= s <= u,
                p <= o,
        ;
        assert(p <= q <= o) by (nonlinear_arith)
            requires
                u == 1_000_000,
                u * p <= n <= u * o,
                2 * u * q <= 2 * n + u,
                2 * n + u < 2 * u * q + 2 * u,
        ;
    }
}

/// At strength zero a channel keeps the original value, at full strength
/// it takes the produced one.
pub proof fn lemma_blend_channel_ends(o: u8, p: u8)
    ensures
        blend_channel(o, p, 0) == o,
        blend_channel(o, p, UNIT as int) == p,
{
    let u = UNIT as int;
    assert((u - 0) * o + 0 * p == u * o) by (nonlinear_arith);
    assert((u - u) * o + u * p == u * p) by (nonlinear_arith);
    assert((2 * u) * o == 2 * (u * o) && (2 * u) * p == 2 * (u * p)) by (nonlinear_arith);
    lemma_div_unique(2 * (u * o) + u, 2 * u, o as int);
    lemma_div_unique(2 * (u * p) + u, 2 * u, p as int);
}

/// Whether every fourth byte of `image`, its alpha channel, is 255.
pub open spec fn is_opaque(image: Seq<u8>) -> bool {
    forall|i: int| 0 <= i < image.len() && i % 4 == 3 ==> image[i] == 255
}

/// Blending at strength zero, or at any strength below it, gives back the
/// colour channels of the original; the alpha channel comes out opaque.
pub proof fn lemma_blend_at_zero(original: Seq<u8>, produced: Seq<u8>, strength: int)
    requires
        original.len() == produced.len(),
        strength <= 0,
    ensures
        blend_spec(original, produced, strength).len() == original.len(),
        forall|i: int|
            0 <= i < original.len() ==> blend_spec(original, produced, strength)[i] == (if i % 4
                == 3 {
                255u8
            } else {
                original[i]
            }),
        is_opaque(original) ==> blend_spec(original, produced, strength) == original,
{
    let out = blend_spec(original, produced, strength);
    assert forall|i: int| 0 <= i < original.len() implies out[i] == (if i % 4 == 3 {
        255u8
    } else {
        original[i]
    }) by {
        lemma_blend_channel_ends(original[i], produced[i]);
    }
    if is_opaque(original) {
        assert(out =~= original);
    }
}

/// Blending at full strength, or at any strength above it, gives the
/// colour channels of the produced image; the alpha channel comes out
/// opaque.
pub proof fn lemma_blend_at_full(original: Seq<u8>, produced: Seq<u8>, strength: int)
    requires
        original.len() == produced.len(),
        strength >= UNIT,
    ensures
        blend_spec(original, produced, strength).len() == produced.len(),
        forall|i: int|
            0 <= i < produced.len() ==> blend_spec(original, produced, strength)[i] == (if i % 4
                == 3 {
                255u8
            } else {
                produced[i]
            }),
        is_opaque(produced) ==> blend_spec(original, produced, strength) == produced,
{
    let out = blend_spec(original, produced, strength);
    assert forall|i: int| 0 <= i < produced.len() implies out[i] == (if i % 4 == 3 {
        255u8
    } else {
        produced[i]
    }) by {
        lemma_blend_channel_ends(original[i], produced[i]);
    }
    if is_opaque(produced) {
        assert(out =~= produced);
    }
}

/// Limits a requested strength to the range from 0 to [`UNIT`].
pub fn clamp_strength(strength: i64) -> (s: i64)
    ensures
        s == clamp_strength_spec(strength as int),
        0 <= s <= UNIT,
{
    if strength < 0 {
        0
    } else if strength > UNIT {
        UNIT
    } else {
        strength
    }
}

/// The strength, in millionths, that a percentage stands for: a
/// percentage below 0 counts as 0, one above 100 as 100.
pub open spec fn strength_from_percent_spec(percent: int) -> int {
    clamp_spec(percent, 0, 100) * 10_000
}

/// Converts a strength given as a percentage to millionths, the unit
/// that [`blend`] takes.
pub fn strength_from_percent(percent: i64) -> (s: i64)
    ensures
        s == strength_from_percent_spec(percent as int),
        s == clamp_strength_spec(s as int),
{
    if percent < 0 {
        0
    } else if percent > 100 {
        UNIT
    } else {
        percent * 10_000
    }
}

/// Blends one colour channel at a strength already within range.
pub fn blend_value(o: u8, p: u8, s: i64) -> (v: u8)
    requires
        0 <= s <= UNIT,
    ensures
        v == blend_channel(o, p, s as int),
{
    let unit: u64 = UNIT as u64;
    let weight: u64 = s as u64;
    proof {
        lemma_blend_channel_between(o, p, s as int);
        assert((unit - weight) * o <= 1_000_000 * 255 && weight * p <= 1_000_000 * 255)
            by (nonlinear_arith)
            requires
                unit == 1_000_000,
                weight <= unit,
                o <= 255,
                p <= 255,
        ;
    }
    let mixed: u64 = (unit - weight) * (o as u64) + weight * (p as u64);
    let q: u64 = (2 * mixed + unit) / (2 * unit);
    q as u8
}

/// Blends `produced` over `original` at the given strength, in millionths.
///
/// A strength outside 0..=[`UNIT`] is clamped, never refused. The two
/// buffers must be equally long; nothing else is asked of them.
pub fn blend(original: &[u8], produced: &[u8], strength: i64) -> (r: Result<
    Vec<u8>,
    StylizerError,
>)
    ensures
        original@.len() != produced@.len() ==> r == Err::<Vec<u8>, StylizerError>(
            StylizerError::InvalidDimensions,
        ),
        original@.len() == produced@.len() ==> r is Ok && r->Ok_0@ == blend_spec(
            original@,
            produced@,
            strength as int,
        ),
{
    if original.len() != produced.len() {
        return Err(StylizerError::InvalidDimensions);
    }
    let s: i64 = clamp_strength(strength);
    let n: usize = original.len();
    let mut out: Vec<u8> = Vec::with_capacity(n);
    let mut i: usize = 0;
    while i < n
        invariant
            n == original@.len(),
            n == produced@.len(),
            0 <= i <= n,
            0 <= s <= UNIT,
            s == clamp_strength_spec(strength as int),
            out@.len() == i,
            forall|k: int| 0 <= k < i ==> out@[k] == blend_spec(original@, produced@, strength as int)[k],
        decreases n - i,
    {
        let v: u8 = if i % 4 == 3 {
            255
        } else {
            blend_value(original[i], produced[i], s)
        };
        out.push(v);
        i += 1;
    }
    assert(out@ =~= blend_spec(original@, produced@, strength as int));
    Ok(out)
}

} // verus!
