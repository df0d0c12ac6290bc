//! Temporal anti-aliasing: the view's shift, frame by frame.
//!
//! Every frame the view is shifted by a different fraction of a pixel, so that over a few frames
//! every pixel has been sampled at several points across it, and the blended frames settle on
//! the average over the pixel's area. The shifts follow a Halton sequence (bases 2 and 3), which
//! covers the pixel evenly in any run of consecutive frames, repeating every eight frames.
//!
//! The shifts are worked out here exactly, as fractions; the engine side turns them into the
//! floating-point offsets (each fraction less one half, in pixels) that the renderer takes.

use vstd::arithmetic::div_mod::{lemma_div_is_strictly_smaller, lemma_fundamental_div_mod};
use vstd::prelude::*;

verus! {

/// A fraction `numerator / denominator`.
#[derive(Debug, Clone, Copy, PartialEq, Eq, Structural)]
pub struct Fraction {
    pub numerator: u64,
    pub denominator: u64,
}

/// How many frames the pattern of shifts takes before it repeats.
pub const JITTER_PERIOD: u64 = 8;

/// The radical inverse of `index` in `base`, as (numerator, denominator): the digits of `index`
/// in `base`, mirrored behind the point. `0.d0 d1 d2 ...` for `index = ... d2 d1 d0`.
pub open spec fn radical_inverse(index: nat, base: nat) -> (nat, nat)
    decreases index,
{
    if index == 0 || base < 2 {
        (0, 1)
    } else {
        proof {
            lemma_div_is_strictly_smaller(index as int, base as int);
        }
        let rest = radical_inverse(index / base, base);
        ((index % base) * rest.1 + rest.0, base * rest.1)
    }
}

/// Which element of the Halton sequence frame `frame` uses.
pub open spec fn jitter_index(frame: nat) -> nat {
    frame % (JITTER_PERIOD as nat) + 1
}

/// The shift of frame `frame`, across and up, each as a fraction of a pixel in [0, 1) from the
/// pixel's corner; the renderer's shift is each less one half.
pub open spec fn jitter_at(frame: nat) -> ((nat, nat), (nat, nat)) {
    (radical_inverse(jitter_index(frame), 2), radical_inverse(jitter_index(frame), 3))
}

/// Whether a fraction `(n, d)` lies above one half.
pub open spec fn above_half(f: (nat, nat)) -> bool {
    2 * f.0 > f.1
}

/// Whether a fraction `(n, d)` lies below one half.
pub open spec fn below_half(f: (nat, nat)) -> bool {
    2 * f.0 < f.1
}

/// Whether a shift lies in the given quarter of the pixel, strictly: right or left of the
/// middle, and above or below it.
pub open spec fn in_quarter(shift: ((nat, nat), (nat, nat)), right: bool, up: bool) -> bool {
    &&& (if right { above_half(shift.0) } else { below_half(shift.0) })
    &&& (if up { above_half(shift.1) } else { below_half(shift.1) })
}

/// A radical inverse is a fraction in [0, 1), and above 0 for any index above 0.
pub proof fn radical_inverse_is_within_the_unit(index: nat, base: nat)
    requires
        base >= 2,
    ensures
        radical_inverse(index, base).1 >= 1,
        radical_inverse(index, base).0 < radical_inverse(index, base).1,
        index > 0 ==> radical_inverse(index, base).0 > 0,
    decreases index,
{
    if index > 0 {
        lemma_div_is_strictly_smaller(index as int, base as int);
        radical_inverse_is_within_the_unit(index / base, base);
        let rest = radical_inverse(index / base, base);
        let digit = index % base;
        lemma_fundamental_div_mod(index as int, base as int);
        assert(digit < base);
        assert(digit * rest.1 + rest.0 < base * rest.1) by (nonlinear_arith)
            requires
                digit < base,
                rest.0 < rest.1,
        ;
        assert(base * rest.1 >= 1) by (nonlinear_arith)
            requires
                base >= 2,
                rest.1 >= 1,
        ;
        if index / base == 0 {
            assert(digit == index);
            assert(digit * rest.1 >= 1) by (nonlinear_arith)
                requires
                    digit >= 1,
                    rest.1 >= 1,
            ;
        } else {
            assert(digit * rest.1 >= 0) by (nonlinear_arith);
        }
    }
}

/// The element `index` of the Halton sequence in `base`: the radical inverse of `index`.
pub fn halton(index: u64, base: u64) -> (fraction: Fraction)
    requires
        base >= 2,
        index as int * base as int <= u64::MAX,
    ensures
        (fraction.numerator as nat, fraction.denominator as nat) == radical_inverse(
            index as nat,
            base as nat,
        ),
{
    let mut rest: u64 = index;
    let mut numerator: u64 = 0;
    let mut denominator: u64 = 1;
    while rest > 0
        invariant
            base >= 2,
            index as int * base as int <= u64::MAX,
            1 <= denominator,
            numerator < denominator,
            rest as int * denominator as int <= index as int,
            radical_inverse(index as nat, base as nat).0 == numerator * radical_inverse(
                rest as nat,
                base as nat,
            ).1 + radical_inverse(rest as nat, base as nat).0,
            radical_inverse(index as nat, base as nat).1 == denominator * radical_inverse(
                rest as nat,
                base as nat,
            ).1,
        decreases rest,
    {
        let digit = rest % base;
        let quotient = rest / base;
        let ghost inner = radical_inverse(quotient as nat, base as nat);
        proof {
            lemma_div_is_strictly_smaller(rest as int, base as int);
            lemma_fundamental_div_mod(rest as int, base as int);
            assert(radical_inverse(rest as nat, base as nat).0 == digit * inner.1 + inner.0);
            assert(radical_inverse(rest as nat, base as nat).1 == base * inner.1);
            assert(numerator * (base * inner.1) + (digit * inner.1 + inner.0) == (numerator * base
                + digit) * inner.1 + inner.0) by (nonlinear_arith);
            assert(denominator * (base * inner.1) == (denominator * base) * inner.1) by (
            nonlinear_arith);
            assert(denominator * base <= index * base) by (nonlinear_arith)
                requires
                    rest >= 1,
                    rest * denominator <= index,
                    denominator >= 1,
                    base >= 2,
            ;
            assert(numerator * base + digit < denominator * base) by (nonlinear_arith)
                requires
                    numerator < denominator,
                    digit < base,
            ;
            assert(quotient * (denominator * base) <= index) by (nonlinear_arith)
                requires
                    rest * denominator <= index,
                    quotient * base <= rest,
                    denominator >= 1,
            ;
        }
        numerator = numerator * base + digit;
        denominator = denominator * base;
        rest = quotient;
    }
    Fraction { numerator, denominator }
}

/// The view's shift for frame `frame`, across and up, each as a fraction of a pixel from the
/// pixel's corner. The shift the renderer takes is each less one half, which keeps it within half
/// a pixel of the middle either way.
pub fn jitter_sample(frame: u64) -> (shift: (Fraction, Fraction))
    ensures
        ((shift.0.numerator as nat, shift.0.denominator as nat), (
            shift.1.numerator as nat,
            shift.1.denominator as nat,
        )) == jitter_at(frame as nat),
{
    let index = frame % JITTER_PERIOD + 1;
    (halton(index, 2), halton(index, 3))
}

/// Whether the blended history carries on into this frame. It does when it was drawn from the
/// same camera of the same scene (`previous`, against `observer`; both as (scene, camera)
/// handles packed into integers), the camera moved less than the jump distance since
/// (`moved_little`), and the frame kept its size and format (`!resized`). Otherwise it was put
/// somewhere else rather than moved there, or the history no longer fits, and the history starts
/// over from this frame.
pub fn keeps_history(
    previous: Option<(u64, u64)>,
    observer: (u64, u64),
    moved_little: bool,
    resized: bool,
) -> (keep: bool)
    ensures
        keep == (previous == Some(observer) && moved_little && !resized),
{
    match previous {
        Some(seen) => seen.0 == observer.0 && seen.1 == observer.1 && moved_little && !resized,
        None => false,
    }
}

/// The pattern repeats every eight frames.
pub proof fn jitter_repeats(frame: nat)
    ensures
        jitter_at(frame) == jitter_at(frame + JITTER_PERIOD as nat),
{
    assert((frame + 8) % 8 == frame % 8);
}

/// Every shift stays within the pixel: each fraction is in [0, 1), so the renderer's shift is
/// within half a pixel of the middle, each way.
pub proof fn jitter_stays_within_the_pixel(frame: nat)
    ensures
        jitter_at(frame).0.0 < jitter_at(frame).0.1,
        jitter_at(frame).1.0 < jitter_at(frame).1.1,
{
    radical_inverse_is_within_the_unit(jitter_index(frame), 2);
    radical_inverse_is_within_the_unit(jitter_index(frame), 3);
}

/// Any eight consecutive frames put shifts in every quarter of the pixel.
pub proof fn jitter_covers_the_pixel(frame: nat, right: bool, up: bool)
    ensures
        exists|k: nat| k < JITTER_PERIOD && #[trigger] in_quarter(jitter_at(frame + k), right, up),
{
    reveal_with_fuel(radical_inverse, 5);
    // Indices 2 to 5 of the sequence land in the four quarters.
    let index: nat = if !right && up {
        2
    } else if right && !up {
        3
    } else if !right && !up {
        4
    } else {
        5
    };
    assert(radical_inverse(1, 2) == (1nat, 2nat));
    assert(radical_inverse(1, 3) == (1nat, 3nat));
    assert(2nat / 2nat == 1nat && 2nat % 2nat == 0nat);
    assert(radical_inverse(2, 2) == (1nat, 4nat));
    assert(radical_inverse(2, 3) == (2nat, 3nat));
    assert(3nat / 2nat == 1nat && 3nat % 2nat == 1nat);
    assert(radical_inverse(3, 2) == (3nat, 4nat));
    assert(radical_inverse(3, 3) == (1nat, 9nat));
    assert(4nat / 2nat == 2nat && 4nat % 2nat == 0nat);
    assert(radical_inverse(4, 2) == (1nat, 8nat));
    assert(4nat / 3nat == 1nat && 4nat % 3nat == 1nat);
    assert(radical_inverse(4, 3) == (4nat, 9nat));
    assert(5nat / 2nat == 2nat && 5nat % 2nat == 1nat);
    assert(radical_inverse(5, 2) == (5nat, 8nat));
    assert(5nat / 3nat == 1nat && 5nat % 3nat == 2nat);
    assert(radical_inverse(5, 3) == (7nat, 9nat));
    let k: nat = ((index - 1 + 8 - frame % 8) % 8) as nat;
    assert((frame + k) % 8 == index - 1);
    assert(jitter_index(frame + k) == index);
    assert(in_quarter(jitter_at(frame + k), right, up));
}

} // verus!
