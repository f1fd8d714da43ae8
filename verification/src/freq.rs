//! The frequency selector: a view over the frequency bins of one analysis
//! window, applying a transform to every bin whose center frequency matches
//! a predicate against a target frequency.
//!
//! The center frequency of bin `i` in a window of `bin_size` bins at
//! `sample_rate` Hz is `i * sample_rate / bin_size` Hz, a rational number;
//! targets and tolerances are given in milli-hertz and every comparison is
//! carried out exactly by cross-multiplication, so the predicate has no
//! rounding of its own.

use vstd::prelude::*;
use crate::sample::{amp_in_range, trunc_div};
use crate::filter::{clamp_amp, div_trunc, clamp_to_amp, GAIN_UNIT};

verus! {

/// Largest sample rate and window size the selector accepts; keeps every
/// cross-multiplied comparison within machine integers.
pub const FREQ_DIM_LIMIT: u64 = 0x1_0000_0000;

/// One complex frequency bin.
#[derive(Clone, Copy, Debug, PartialEq, Eq, Structural)]
pub struct Bin {
    /// Real part, in the engine's fixed-point amplitude units.
    pub re: i64,
    /// Imaginary part, in the engine's fixed-point amplitude units.
    pub im: i64,
}

/// How a bin's center frequency is tested against the target frequency.
#[derive(Clone, Copy, Debug, PartialEq, Eq, Structural)]
pub enum ApplyKind {
    /// Center strictly below the target.
    Less,
    /// Center at or below the target.
    LessEq,
    /// Center within the carried tolerance (milli-hertz) of the target.
    ApproxEq(u64),
    /// Center at or above the target.
    GreaterEq,
    /// Center strictly above the target.
    Greater,
}

/// A transform of one bin component, drawn from a closed set; applied to the
/// real and the imaginary part independently.
#[derive(Clone, Copy, Debug, PartialEq, Eq, Structural)]
pub enum BinTransform {
    /// Silences the band: both components become zero.
    Zero,
    /// Scales the component by `factor / GAIN_UNIT`.
    Scale(i64),
    /// Adds a fixed offset to the component.
    Offset(i64),
}

/// Whether bin `i`'s center frequency `i * sample_rate / bin_size` Hz
/// matches the target `freq_mhz` (milli-hertz) under `kind`. The comparison
/// multiplies both sides by `bin_size`, so it is exact.
pub open spec fn spec_bin_matches(
    i: int,
    sample_rate: int,
    bin_size: int,
    kind: ApplyKind,
    freq_mhz: int,
) -> bool
    recommends
        bin_size >= 1,
{
    let lhs = i * sample_rate * 1000;
    let rhs = freq_mhz * bin_size;
    match kind {
        ApplyKind::Less => lhs < rhs,
        ApplyKind::LessEq => lhs <= rhs,
        ApplyKind::ApproxEq(eps) => -((eps as int) * bin_size) < lhs - rhs < (eps as int)
            * bin_size,
        ApplyKind::GreaterEq => lhs >= rhs,
        ApplyKind::Greater => lhs > rhs,
    }
}

/// What a bin transform yields for one component.
pub open spec fn spec_bin_transform(f: BinTransform, c: int) -> int {
    match f {
        BinTransform::Zero => 0,
        BinTransform::Scale(g) => clamp_amp(trunc_div(c * g, GAIN_UNIT as int)),
        BinTransform::Offset(d) => clamp_amp(c + d),
    }
}

/// What a whole bin becomes under a transform.
pub open spec fn spec_transform_bin(f: BinTransform, b: Bin) -> Bin {
    Bin { re: spec_bin_transform(f, b.re as int) as i64, im: spec_bin_transform(f, b.im as int) as i64 }
}

/// Decides whether bin `i` matches the target frequency under `kind`,
/// exactly as the rational comparison of center frequencies demands.
pub fn bin_matches(
    i: usize,
    sample_rate: usize,
    bin_size: usize,
    kind: ApplyKind,
    freq_mhz: u64,
) -> (r: bool)
    requires
        1 <= bin_size,
        bin_size as int <= FREQ_DIM_LIMIT as int,
        1 <= sample_rate,
        sample_rate as int <= FREQ_DIM_LIMIT as int,
        i < bin_size,
    ensures
        r == spec_bin_matches(i as int, sample_rate as int, bin_size as int, kind, freq_mhz as int),
{
    proof {
        assert((i as int) * (sample_rate as int) <= (FREQ_DIM_LIMIT as int) * (FREQ_DIM_LIMIT
            as int)) by (nonlinear_arith)
            requires
                0 <= i as int <= FREQ_DIM_LIMIT as int,
                0 <= sample_rate as int <= FREQ_DIM_LIMIT as int,
        ;
        assert((freq_mhz as int) * (bin_size as int) <= (u64::MAX as int) * (FREQ_DIM_LIMIT
            as int)) by (nonlinear_arith)
            requires
                0 <= freq_mhz as int <= u64::MAX as int,
                0 <= bin_size as int <= FREQ_DIM_LIMIT as int,
        ;
        assert((freq_mhz as int) * (bin_size as int) >= 0) by (nonlinear_arith)
            requires
                freq_mhz as int >= 0,
                bin_size as int >= 0,
        ;
    }
    let lhs: i128 = (i as i128) * (sample_rate as i128) * 1000;
    let rhs: i128 = (freq_mhz as i128) * (bin_size as i128);
    match kind {
        ApplyKind::Less => lhs < rhs,
        ApplyKind::LessEq => lhs <= rhs,
        ApplyKind::ApproxEq(eps) => {
            proof {
                assert((eps as int) * (bin_size as int) <= (u64::MAX as int) * (FREQ_DIM_LIMIT
                    as int)) by (nonlinear_arith)
                    requires
                        0 <= eps as int <= u64::MAX as int,
                        0 <= bin_size as int <= FREQ_DIM_LIMIT as int,
                ;
                assert((eps as int) * (bin_size as int) >= 0) by (nonlinear_arith)
                    requires
                        eps as int >= 0,
                        bin_size as int >= 0,
                ;
            }
            let tol: i128 = (eps as i128) * (bin_size as i128);
            -tol < lhs - rhs && lhs - rhs < tol
        },
        ApplyKind::GreaterEq => lhs >= rhs,
        ApplyKind::Greater => lhs > rhs,
    }
}

/// Applies one transform to one component.
fn apply_bin_transform(f: BinTransform, c: i64) -> (r: i64)
    requires
        amp_in_range(c as int),
    ensures
        r as int == spec_bin_transform(f, c as int),
        amp_in_range(r as int),
{
    match f {
        BinTransform::Zero => 0,
        BinTransform::Scale(g) => {
            proof {
                assert(-((crate::sample::AMP_LIMIT as int) * 0x8000_0000_0000_0000) <= (c as int)
                    * (g as int) <= (crate::sample::AMP_LIMIT as int) * 0x8000_0000_0000_0000)
                    by (nonlinear_arith)
                    requires
                        -(crate::sample::AMP_LIMIT as int) <= c as int <= crate::sample::AMP_LIMIT
                            as int,
                        -0x8000_0000_0000_0000 <= g as int <= 0x8000_0000_0000_0000,
                ;
            }
            let p: i128 = (c as i128) * (g as i128);
            clamp_to_amp(div_trunc(p, GAIN_UNIT as i128))
        },
        BinTransform::Offset(d) => clamp_to_amp((c as i128) + (d as i128)),
    }
}

/// Why a selector could not be built over a window of bins.
#[derive(Clone, Copy, Debug, PartialEq, Eq, Structural)]
pub enum FreqError {
    /// The bin count differs from the analysis window size.
    WrongLength,
    /// A bin component exceeds the engine's headroom.
    ComponentOutOfRange,
}

/// A mutable view over the frequency bins of one analysis window.
pub struct Frequencies {
    f: Vec<Bin>,
    sample_rate: usize,
    bin_size: usize,
}

impl Frequencies {
    /// The bins, ascending by index.
    pub closed spec fn spec_bins(self) -> Seq<Bin> {
        self.f@
    }

    /// The sample rate of the analysed signal, in hertz.
    pub closed spec fn spec_sample_rate(self) -> int {
        self.sample_rate as int
    }

    /// The analysis window size: the number of bins.
    pub closed spec fn spec_bin_size(self) -> int {
        self.bin_size as int
    }

    /// The selector invariant: one bin per window slot, positive dimensions
    /// within the machine cap, every component within headroom.
    pub open spec fn wf(self) -> bool {
        &&& 1 <= self.spec_sample_rate() && self.spec_sample_rate() <= FREQ_DIM_LIMIT as int
        &&& 1 <= self.spec_bin_size() && self.spec_bin_size() <= FREQ_DIM_LIMIT as int
        &&& self.spec_bins().len() == self.spec_bin_size()
        &&& forall|i: int|
            0 <= i < self.spec_bins().len() ==> amp_in_range(
                (#[trigger] self.spec_bins()[i]).re as int,
            ) && amp_in_range(self.spec_bins()[i].im as int)
    }

    /// Wraps a window of bins; the bin count must equal the window size and
    /// every component must lie within the engine's headroom.
    pub fn new(f: Vec<Bin>, sample_rate: usize, bin_size: usize) -> (r: Result<
        Frequencies,
        FreqError,
    >)
        requires
            1 <= sample_rate,
        sample_rate as int <= FREQ_DIM_LIMIT as int,
            1 <= bin_size,
        bin_size as int <= FREQ_DIM_LIMIT as int,
        ensures
            match r {
                Ok(q) => {
                    &&& f@.len() == bin_size
                    &&& q.wf()
                    &&& q.spec_bins() == f@
                    &&& q.spec_sample_rate() == sample_rate as int
                    &&& q.spec_bin_size() == bin_size as int
                },
                Err(FreqError::WrongLength) => f@.len() != bin_size,
                Err(FreqError::ComponentOutOfRange) => {
                    &&& f@.len() == bin_size
                    &&& exists|i: int|
                        0 <= i < f@.len() && !(amp_in_range((#[trigger] f@[i]).re as int)
                            && amp_in_range(f@[i].im as int))
                },
            },
    {
        if f.len() != bin_size {
            return Err(FreqError::WrongLength);
        }
        let mut i: usize = 0;
        while i < f.len()
            invariant
                i <= f@.len(),
                f@.len() == bin_size,
                forall|j: int|
                    0 <= j < i ==> amp_in_range((#[trigger] f@[j]).re as int) && amp_in_range(
                        f@[j].im as int,
                    ),
            decreases f@.len() - i,
        {
            let b = f[i];
            if !(-crate::sample::AMP_LIMIT <= b.re && b.re <= crate::sample::AMP_LIMIT
                && -crate::sample::AMP_LIMIT <= b.im && b.im <= crate::sample::AMP_LIMIT) {
                proof {
                    assert(0 <= (i as int) < f@.len() && !(amp_in_range(f@[i as int].re as int)
                        && amp_in_range(f@[i as int].im as int)));
                }
                return Err(FreqError::ComponentOutOfRange);
            }
            i = i + 1;
        }
        Ok(Frequencies { f, sample_rate, bin_size })
    }

    /// The bins, for reading the selector's result back out.
    pub fn bins(&self) -> (r: &Vec<Bin>)
        ensures
            r@ == self.spec_bins(),
    {
        &self.f
    }

    /// Applies the transform to every bin whose center frequency matches
    /// the target under `kind`, on the real and imaginary parts
    /// independently; every other bin is left exactly as it was.
    pub fn apply(&mut self, kind: ApplyKind, frequency: u64, f: BinTransform)
        requires
            old(self).wf(),
        ensures
            final(self).wf(),
            final(self).spec_sample_rate() == old(self).spec_sample_rate(),
            final(self).spec_bin_size() == old(self).spec_bin_size(),
            final(self).spec_bins().len() == old(self).spec_bins().len(),
            forall|i: int|
                0 <= i < old(self).spec_bins().len() ==> #[trigger] final(self).spec_bins()[i]
                    == if spec_bin_matches(
                    i,
                    old(self).spec_sample_rate(),
                    old(self).spec_bin_size(),
                    kind,
                    frequency as int,
                ) {
                    spec_transform_bin(f, old(self).spec_bins()[i])
                } else {
                    old(self).spec_bins()[i]
                },
    {
        let n = self.f.len();
        let mut out: Vec<Bin> = Vec::new();
        let mut i: usize = 0;
        while i < n
            invariant
                i <= n,
                n == self.f@.len(),
                self.wf(),
                out@.len() == i,
                forall|j: int|
                    0 <= j < i ==> #[trigger] out@[j] == if spec_bin_matches(
                        j,
                        self.spec_sample_rate(),
                        self.spec_bin_size(),
                        kind,
                        frequency as int,
                    ) {
                        spec_transform_bin(f, self.spec_bins()[j])
                    } else {
                        self.spec_bins()[j]
                    },
                forall|j: int|
                    0 <= j < i ==> amp_in_range((#[trigger] out@[j]).re as int) && amp_in_range(
                        out@[j].im as int,
                    ),
            decreases n - i,
        {
            let b = self.f[i];
            proof {
                assert(amp_in_range(self.spec_bins()[i as int].re as int) && amp_in_range(
                    self.spec_bins()[i as int].im as int,
                ));
            }
            if bin_matches(i, self.sample_rate, self.bin_size, kind, frequency) {
                out.push(Bin { re: apply_bin_transform(f, b.re), im: apply_bin_transform(f, b.im) });
            } else {
                out.push(b);
            }
            i = i + 1;
        }
        self.f = out;
    }
}

} // verus!
