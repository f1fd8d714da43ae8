//! The sample codec: the bidirectional mapping between the engine's
//! normalized amplitude domain and each supported on-the-wire encoding.
//!
//! The amplitude domain is fixed point: `SAMPLE_UNIT` units are a full-scale
//! amplitude of one, so the logical range `[-1, 1]` is `[-SAMPLE_UNIT,
//! SAMPLE_UNIT]`. Amplitudes outside that range are permitted transiently
//! (after a gain filter, say) up to the engine's headroom `AMP_LIMIT`, but are
//! saturated before narrowing to the 16-bit integer encoding.

use vstd::prelude::*;

verus! {

/// Fixed-point units standing for a full-scale amplitude of one.
pub const SAMPLE_UNIT: i64 = 327680;

/// Units spanned by one 16-bit quantization level: `SAMPLE_UNIT / 32768`.
pub const S16_STEP: i64 = 10;

/// Engine headroom: the largest amplitude magnitude any engine value may
/// carry, far beyond full scale so gain filters have room to overshoot.
pub const AMP_LIMIT: i64 = 0x100_0000_0000;

/// An amplitude in fixed-point units of `1 / SAMPLE_UNIT`.
pub type Sample = i64;

/// The declared on-the-wire encoding of a buffer: 32-bit float samples
/// (held here as already-normalized amplitudes, which the float encoding
/// passes through unchanged) or 16-bit signed integer samples.
#[derive(Clone, Copy, Debug, PartialEq, Eq, Structural)]
pub enum Encoding {
    F32,
    S16,
}

/// Integer division truncating toward zero, for a positive divisor.
pub open spec fn trunc_div(a: int, b: int) -> int
    recommends
        b > 0,
{
    if a >= 0 {
        a / b
    } else {
        -((-a) / b)
    }
}

/// `a` saturated into `[lo, hi]`.
pub open spec fn clamp(a: int, lo: int, hi: int) -> int
    recommends
        lo <= hi,
{
    if a < lo {
        lo
    } else if a > hi {
        hi
    } else {
        a
    }
}

/// Whether `raw` is a value the encoding can carry: the full 16-bit range for
/// `S16`, any amplitude within the engine's headroom for `F32`.
pub open spec fn raw_in_range(enc: Encoding, raw: int) -> bool {
    match enc {
        Encoding::F32 => -AMP_LIMIT <= raw <= AMP_LIMIT,
        Encoding::S16 => -32768 <= raw <= 32767,
    }
}

/// Whether an amplitude lies within the engine's headroom.
pub open spec fn amp_in_range(amp: int) -> bool {
    -AMP_LIMIT <= amp <= AMP_LIMIT
}

/// What decoding a raw value yields: the float encoding passes through
/// unchanged; a 16-bit value is mapped into the amplitude domain by scaling
/// with `S16_STEP` (that is, divided by the encoding's maximum magnitude).
pub open spec fn spec_decode(enc: Encoding, raw: int) -> int {
    match enc {
        Encoding::F32 => raw,
        Encoding::S16 => raw * S16_STEP,
    }
}

/// What encoding an amplitude yields: the float encoding passes through
/// unchanged (no saturation); the 16-bit encoding multiplies by the maximum
/// magnitude (here, divides by `S16_STEP`), truncates, and saturates to the
/// representable range.
pub open spec fn spec_encode(enc: Encoding, amp: int) -> int {
    match enc {
        Encoding::F32 => amp,
        Encoding::S16 => clamp(trunc_div(amp, S16_STEP as int), -32768, 32767),
    }
}

/// Decodes one raw value of the given encoding into an amplitude.
pub fn decode(enc: Encoding, raw: i64) -> (amp: Sample)
    requires
        raw_in_range(enc, raw as int),
    ensures
        amp == spec_decode(enc, raw as int),
        amp_in_range(amp as int),
{
    match enc {
        Encoding::F32 => raw,
        Encoding::S16 => raw * S16_STEP,
    }
}

/// Encodes one amplitude into a raw value of the given encoding.
pub fn encode(enc: Encoding, amp: Sample) -> (raw: i64)
    requires
        amp_in_range(amp as int),
    ensures
        raw == spec_encode(enc, amp as int),
        raw_in_range(enc, raw as int),
{
    match enc {
        Encoding::F32 => amp,
        Encoding::S16 => {
            let q: i64 = if amp >= 0 {
                ((amp as u64) / (S16_STEP as u64)) as i64
            } else {
                -((((-amp) as u64) / (S16_STEP as u64)) as i64)
            };
            if q < -32768 {
                -32768
            } else if q > 32767 {
                32767
            } else {
                q
            }
        },
    }
}

/// The 16-bit codec round-trip law: a sample within the logical range
/// `[-1, 1]` survives encoding and decoding to within one quantization step,
/// and a sample outside that range encodes to the saturated boundary value.
pub proof fn lemma_s16_round_trip(amp: int)
    ensures
        -SAMPLE_UNIT <= amp <= SAMPLE_UNIT ==> {
            let back = spec_decode(Encoding::S16, spec_encode(Encoding::S16, amp));
            -S16_STEP <= back - amp <= S16_STEP
        },
        amp > SAMPLE_UNIT ==> spec_encode(Encoding::S16, amp) == 32767,
        amp < -SAMPLE_UNIT ==> spec_encode(Encoding::S16, amp) == -32768,
{
    let q = trunc_div(amp, S16_STEP as int);
    if amp >= 0 {
        assert(q * S16_STEP <= amp < (q + 1) * S16_STEP) by (nonlinear_arith)
            requires
                amp >= 0,
                q == amp / (S16_STEP as int),
                S16_STEP == 10,
        ;
    } else {
        let m = -amp;
        let p = m / (S16_STEP as int);
        assert(p * S16_STEP <= m < (p + 1) * S16_STEP) by (nonlinear_arith)
            requires
                m > 0,
                p == m / (S16_STEP as int),
                S16_STEP == 10,
        ;
        assert(q == -p);
    }
}

} // verus!
