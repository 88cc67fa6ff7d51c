//! The oscillator bank: five pure functions mapping a 16-bit signed phase to
//! a 16-bit signed amplitude, each periodic in the phase with period 65536.
//!
//! All arithmetic is fixed point with explicit two's-complement wraparound,
//! so every function below is total and bit-exact; each executable function
//! is proved equal to its specification mirror.
use vstd::prelude::*;

verus! {

/// Cosine approximation: the phase is folded by its sign bit into a quarter
/// period and pushed through a three-term polynomial.
pub open spec fn cos_spec(x: i16) -> i16 {
    let mask = (x >> 15) as i32;
    let t = (x as i32) ^ mask;
    let u1 = 1127i32.wrapping_mul(t).wrapping_sub(55399812) >> 15;
    let u2 = u1.wrapping_mul(t).wrapping_add(1831554) >> 15;
    (u2.wrapping_mul(t).wrapping_add(8337525) >> 8) as i16
}

/// Square wave: the two extreme values, split at the phase's sign.
pub open spec fn square_spec(x: i16) -> i16 {
    if x < 0 {
        -0x7FFFi16
    } else {
        0x7FFF
    }
}

/// Triangle wave: negative phases are folded up, then the ramp is flipped.
pub open spec fn triangle_spec(x: i16) -> i16 {
    let folded = if x < 0 {
        (-1i16).wrapping_sub(x)
    } else {
        x
    };
    0x7FFFi16.wrapping_sub(folded << 1u32)
}

/// Sawtooth wave: a free-running ramp, the identity on the phase.
pub open spec fn saw_spec(x: i16) -> i16 {
    x
}

/// Noise: an integer multiply-and-add hash of the phase, so that the same
/// phase always yields the same pseudo-random sample.
pub open spec fn noise_spec(x: i16) -> i16 {
    let t = ((x >> 13u32) ^ x) as u32;
    t.wrapping_mul(t.wrapping_mul(t.wrapping_mul(60493)).wrapping_add(19990303)).wrapping_add(
        1376312589,
    ) as i16
}

pub fn i16cos(x: i16) -> (r: i16)
    ensures
        r == cos_spec(x),
{
    let mask: i32 = (x >> 15u32) as i32;
    let t: i32 = (x as i32) ^ mask;
    let mut u: i32 = 1127;
    u = u.wrapping_mul(t).wrapping_sub(55399812) >> 15u32;
    u = u.wrapping_mul(t).wrapping_add(1831554) >> 15u32;
    #[verifier::truncate]
    ((u.wrapping_mul(t).wrapping_add(8337525) >> 8u32) as i16)
}

pub fn i16square(x: i16) -> (r: i16)
    ensures
        r == square_spec(x),
{
    if x < 0 {
        -0x7FFFi16
    } else {
        0x7FFF
    }
}

pub fn i16triangle(x: i16) -> (r: i16)
    ensures
        r == triangle_spec(x),
{
    let folded: i16 = if x < 0 {
        (-1i16).wrapping_sub(x)
    } else {
        x
    };
    0x7FFFi16.wrapping_sub(folded << 1u32)
}

pub fn i16saw(x: i16) -> (r: i16)
    ensures
        r == saw_spec(x),
{
    x
}

pub fn i16noise(x: i16) -> (r: i16)
    ensures
        r == noise_spec(x),
{
    let t: u32 = #[verifier::truncate] (((x >> 13u32) ^ x) as u32);
    #[verifier::truncate]
    ((t.wrapping_mul(t.wrapping_mul(t.wrapping_mul(60493)).wrapping_add(19990303)).wrapping_add(
        1376312589,
    )) as i16)
}

} // verus!
