//! The filter chain: two registries of filters (per-sample and per-frame)
//! applied to every frame of a buffer, in ascending identifier order, with
//! all computation routed through the sample codec so the chain is agnostic
//! to the buffer's encoding.
//!
//! Filters are drawn from a closed set of pure transforms; each transform
//! saturates its result into the engine's headroom so chains of any length
//! stay total.

use vstd::prelude::*;
use vstd::arithmetic::div_mod::lemma_fundamental_div_mod;
use vstd::arithmetic::div_mod::lemma_fundamental_div_mod_converse;
use crate::sample::{
    Encoding, Sample, amp_in_range, raw_in_range, clamp, trunc_div, spec_decode, spec_encode,
    decode, encode, AMP_LIMIT,
};
use crate::buffer::{Buffer, ints_of};
use crate::utils::IdMap;

verus! {

/// Fixed-point units standing for a gain factor of one.
pub const GAIN_UNIT: i64 = 1000;

/// A pure per-sample transform, applied independently to every sample.
#[derive(Clone, Copy, Debug, PartialEq, Eq, Structural)]
pub enum SampleFilter {
    /// Scales the amplitude by `factor / GAIN_UNIT`.
    Gain(i64),
    /// Adds a fixed amplitude offset.
    Offset(i64),
}

/// A transform of one whole frame, seeing every channel's sample at once.
#[derive(Clone, Copy, Debug, PartialEq, Eq, Structural)]
pub enum FrameFilter {
    /// Replaces every channel with the average of all channels.
    Average,
    /// Reverses the channel order of the frame.
    Reverse,
}

/// An amplitude saturated into the engine's headroom.
pub open spec fn clamp_amp(a: int) -> int {
    clamp(a, -(AMP_LIMIT as int), AMP_LIMIT as int)
}

/// What one sample filter yields for one amplitude.
pub open spec fn spec_sample_filter(f: SampleFilter, a: int) -> int {
    match f {
        SampleFilter::Gain(g) => clamp_amp(trunc_div(a * g, GAIN_UNIT as int)),
        SampleFilter::Offset(d) => clamp_amp(a + d),
    }
}

/// What a sequence of sample filters yields, composing left to right: the
/// output of each filter feeds the next.
pub open spec fn spec_sample_chain(fs: Seq<SampleFilter>, a: int) -> int
    decreases fs.len(),
{
    if fs.len() == 0 {
        a
    } else {
        spec_sample_chain(fs.drop_first(), spec_sample_filter(fs.first(), a))
    }
}

/// The sum of a sequence of amplitudes.
pub open spec fn spec_sum(s: Seq<int>) -> int
    decreases s.len(),
{
    if s.len() == 0 {
        0
    } else {
        spec_sum(s.drop_last()) + s.last()
    }
}

/// What one frame filter yields for one frame of amplitudes.
pub open spec fn spec_frame_filter(f: FrameFilter, fr: Seq<int>) -> Seq<int> {
    match f {
        FrameFilter::Average => if fr.len() == 0 {
            fr
        } else {
            Seq::new(fr.len(), |i: int| clamp_amp(trunc_div(spec_sum(fr), fr.len() as int)))
        },
        FrameFilter::Reverse => Seq::new(fr.len(), |i: int| fr[fr.len() - 1 - i]),
    }
}

/// What a sequence of frame filters yields, composing left to right.
pub open spec fn spec_frame_chain(fs: Seq<FrameFilter>, fr: Seq<int>) -> Seq<int>
    decreases fs.len(),
{
    if fs.len() == 0 {
        fr
    } else {
        spec_frame_chain(fs.drop_first(), spec_frame_filter(fs.first(), fr))
    }
}

/// What the chain makes of one frame of raw values: decode every sample,
/// run the frame filters, run the sample filters on every resulting sample,
/// encode back.
pub open spec fn spec_process_frame(
    enc: Encoding,
    ffs: Seq<FrameFilter>,
    sfs: Seq<SampleFilter>,
    raw: Seq<int>,
) -> Seq<int> {
    let amps = raw.map_values(|r: int| spec_decode(enc, r));
    let shaped = spec_frame_chain(ffs, amps);
    shaped.map_values(|a: int| spec_encode(enc, spec_sample_chain(sfs, a)))
}

/// The raw values of frame `t` of a buffer with `ch` channels.
pub open spec fn spec_frame_at(raw: Seq<int>, ch: int, t: int) -> Seq<int> {
    raw.subrange(t * ch, t * ch + ch)
}

/// What the chain makes of a whole buffer: every frame processed
/// independently, frames kept in buffer order.
pub open spec fn spec_process_buffer(
    enc: Encoding,
    ch: int,
    ffs: Seq<FrameFilter>,
    sfs: Seq<SampleFilter>,
    raw: Seq<int>,
) -> Seq<int> {
    Seq::new(
        raw.len(),
        |i: int| spec_process_frame(enc, ffs, sfs, spec_frame_at(raw, ch, i / ch))[i % ch],
    )
}

/// Appending a filter to a sample chain is the same as running the chain and
/// then the filter.
pub proof fn lemma_sample_chain_push(fs: Seq<SampleFilter>, f: SampleFilter, a: int)
    ensures
        spec_sample_chain(fs.push(f), a) == spec_sample_filter(f, spec_sample_chain(fs, a)),
    decreases fs.len(),
{
    if fs.len() == 0 {
        assert(fs.push(f).first() == f);
        assert(fs.push(f).drop_first() =~= Seq::<SampleFilter>::empty());
        assert(spec_sample_chain(Seq::<SampleFilter>::empty(), spec_sample_filter(f, a))
            == spec_sample_filter(f, a));
    } else {
        assert(fs.push(f).first() == fs.first());
        assert(fs.push(f).drop_first() =~= fs.drop_first().push(f));
        lemma_sample_chain_push(fs.drop_first(), f, spec_sample_filter(fs.first(), a));
    }
}

/// Appending a filter to a frame chain is the same as running the chain and
/// then the filter.
pub proof fn lemma_frame_chain_push(fs: Seq<FrameFilter>, f: FrameFilter, fr: Seq<int>)
    ensures
        spec_frame_chain(fs.push(f), fr) == spec_frame_filter(f, spec_frame_chain(fs, fr)),
    decreases fs.len(),
{
    if fs.len() == 0 {
        assert(fs.push(f).first() == f);
        assert(fs.push(f).drop_first() =~= Seq::<FrameFilter>::empty());
        assert(spec_frame_chain(Seq::<FrameFilter>::empty(), spec_frame_filter(f, fr))
            == spec_frame_filter(f, fr));
    } else {
        assert(fs.push(f).first() == fs.first());
        assert(fs.push(f).drop_first() =~= fs.drop_first().push(f));
        lemma_frame_chain_push(fs.drop_first(), f, spec_frame_filter(fs.first(), fr));
    }
}

/// Truncating division of a signed value by a positive divisor.
pub(crate) fn div_trunc(p: i128, d: i128) -> (q: i128)
    requires
        d >= 1,
        p > i128::MIN,
    ensures
        q as int == trunc_div(p as int, d as int),
{
    if p >= 0 {
        ((p as u128) / (d as u128)) as i128
    } else {
        -((((-p) as u128) / (d as u128)) as i128)
    }
}

/// Saturates a wide intermediate into the engine's headroom.
pub(crate) fn clamp_to_amp(q: i128) -> (r: Sample)
    ensures
        r as int == clamp_amp(q as int),
        amp_in_range(r as int),
{
    if q < -(AMP_LIMIT as i128) {
        -AMP_LIMIT
    } else if q > AMP_LIMIT as i128 {
        AMP_LIMIT
    } else {
        q as i64
    }
}

/// Applies one sample filter to one amplitude.
fn apply_sample_filter(f: SampleFilter, a: Sample) -> (r: Sample)
    requires
        amp_in_range(a as int),
    ensures
        r as int == spec_sample_filter(f, a as int),
        amp_in_range(r as int),
{
    match f {
        SampleFilter::Gain(g) => {
            proof {
                assert(-((AMP_LIMIT as int) * 0x8000_0000_0000_0000) <= (a as int) * (g as int)
                    <= (AMP_LIMIT as int) * 0x8000_0000_0000_0000) by (nonlinear_arith)
                    requires
                        -(AMP_LIMIT as int) <= a as int <= AMP_LIMIT as int,
                        -0x8000_0000_0000_0000 <= g as int <= 0x8000_0000_0000_0000,
                ;
            }
            let p: i128 = (a as i128) * (g as i128);
            clamp_to_amp(div_trunc(p, GAIN_UNIT as i128))
        },
        SampleFilter::Offset(d) => clamp_to_amp((a as i128) + (d as i128)),
    }
}

/// Runs every sample filter over one amplitude, in sequence order.
fn apply_sample_chain(sfs: &Vec<SampleFilter>, a: Sample) -> (r: Sample)
    requires
        amp_in_range(a as int),
    ensures
        r as int == spec_sample_chain(sfs@, a as int),
        amp_in_range(r as int),
{
    let mut acc = a;
    let mut i: usize = 0;
    while i < sfs.len()
        invariant
            i <= sfs@.len(),
            acc as int == spec_sample_chain(sfs@.subrange(0, i as int), a as int),
            amp_in_range(acc as int),
        decreases sfs@.len() - i,
    {
        acc = apply_sample_filter(sfs[i], acc);
        proof {
            assert(sfs@.subrange(0, i + 1) =~= sfs@.subrange(0, i as int).push(sfs@[i as int]));
            lemma_sample_chain_push(sfs@.subrange(0, i as int), sfs@[i as int], a as int);
        }
        i = i + 1;
    }
    proof {
        assert(sfs@.subrange(0, sfs@.len() as int) =~= sfs@);
    }
    acc
}

/// Applies one frame filter in place to one frame of amplitudes.
fn apply_frame_filter(f: FrameFilter, amps: &mut Vec<i64>)
    requires
        forall|i: int| 0 <= i < old(amps)@.len() ==> amp_in_range(#[trigger] old(amps)@[i] as int),
    ensures
        final(amps)@.len() == old(amps)@.len(),
        ints_of(final(amps)@) == spec_frame_filter(f, ints_of(old(amps)@)),
        forall|i: int| 0 <= i < final(amps)@.len() ==> amp_in_range(
            #[trigger] final(amps)@[i] as int,
        ),
{
    let n = amps.len();
    match f {
        FrameFilter::Average => {
            if n == 0 {
                proof {
                    assert(ints_of(amps@) =~= spec_frame_filter(f, ints_of(amps@)));
                }
                return ;
            }
            let mut s: i128 = 0;
            let mut i: usize = 0;
            while i < n
                invariant
                    i <= n,
                    n == amps@.len(),
                    forall|j: int| 0 <= j < amps@.len() ==> amp_in_range(
                        #[trigger] amps@[j] as int,
                    ),
                    s as int == spec_sum(ints_of(amps@).take(i as int)),
                    -(i as int) * (AMP_LIMIT as int) <= s as int <= (i as int) * (AMP_LIMIT
                        as int),
                decreases n - i,
            {
                proof {
                    assert(ints_of(amps@).take(i + 1).drop_last() =~= ints_of(amps@).take(
                        i as int,
                    ));
                    assert(ints_of(amps@).take(i + 1).last() == amps@[i as int] as int);
                }
                s = s + (amps[i] as i128);
                i = i + 1;
            }
            proof {
                assert(ints_of(amps@).take(n as int) =~= ints_of(amps@));
            }
            let q = div_trunc(s, n as i128);
            let m = clamp_to_amp(q);
            let mut filled: Vec<i64> = Vec::new();
            let mut k: usize = 0;
            while k < n
                invariant
                    k <= n,
                    filled@.len() == k,
                    forall|j: int| 0 <= j < k ==> #[trigger] filled@[j] == m,
                decreases n - k,
            {
                filled.push(m);
                k = k + 1;
            }
            *amps = filled;
            proof {
                assert(ints_of(amps@) =~= spec_frame_filter(f, ints_of(old(amps)@)));
            }
        },
        FrameFilter::Reverse => {
            let mut rev: Vec<i64> = Vec::new();
            let mut k: usize = 0;
            while k < n
                invariant
                    k <= n,
                    n == amps@.len(),
                    rev@.len() == k,
                    forall|j: int| 0 <= j < amps@.len() ==> amp_in_range(
                        #[trigger] amps@[j] as int,
                    ),
                    forall|j: int| 0 <= j < k ==> #[trigger] rev@[j] == amps@[amps@.len() - 1 - j],
                decreases n - k,
            {
                rev.push(amps[n - 1 - k]);
                k = k + 1;
            }
            *amps = rev;
            proof {
                assert(ints_of(amps@) =~= spec_frame_filter(f, ints_of(old(amps)@)));
            }
        },
    }
}

/// Runs every frame filter over one frame, in sequence order.
fn apply_frame_chain(ffs: &Vec<FrameFilter>, amps: &mut Vec<i64>)
    requires
        forall|i: int| 0 <= i < old(amps)@.len() ==> amp_in_range(#[trigger] old(amps)@[i] as int),
    ensures
        final(amps)@.len() == old(amps)@.len(),
        ints_of(final(amps)@) == spec_frame_chain(ffs@, ints_of(old(amps)@)),
        forall|i: int| 0 <= i < final(amps)@.len() ==> amp_in_range(
            #[trigger] final(amps)@[i] as int,
        ),
{
    let mut i: usize = 0;
    while i < ffs.len()
        invariant
            i <= ffs@.len(),
            amps@.len() == old(amps)@.len(),
            ints_of(amps@) == spec_frame_chain(ffs@.subrange(0, i as int), ints_of(old(amps)@)),
            forall|j: int| 0 <= j < amps@.len() ==> amp_in_range(#[trigger] amps@[j] as int),
        decreases ffs@.len() - i,
    {
        apply_frame_filter(ffs[i], amps);
        proof {
            assert(ffs@.subrange(0, i + 1) =~= ffs@.subrange(0, i as int).push(ffs@[i as int]));
            lemma_frame_chain_push(
                ffs@.subrange(0, i as int),
                ffs@[i as int],
                ints_of(old(amps)@),
            );
        }
        i = i + 1;
    }
    proof {
        assert(ffs@.subrange(0, ffs@.len() as int) =~= ffs@);
    }
}

/// Processes one frame of raw values through the whole chain.
fn process_frame(
    enc: Encoding,
    ffs: &Vec<FrameFilter>,
    sfs: &Vec<SampleFilter>,
    frame: Vec<i64>,
) -> (out: Vec<i64>)
    requires
        forall|i: int| 0 <= i < frame@.len() ==> raw_in_range(enc, #[trigger] frame@[i] as int),
    ensures
        out@.len() == frame@.len(),
        ints_of(out@) == spec_process_frame(enc, ffs@, sfs@, ints_of(frame@)),
        forall|i: int| 0 <= i < out@.len() ==> raw_in_range(enc, #[trigger] out@[i] as int),
{
    let n = frame.len();
    let mut amps: Vec<i64> = Vec::new();
    let mut i: usize = 0;
    while i < n
        invariant
            i <= n,
            n == frame@.len(),
            amps@.len() == i,
            forall|j: int| 0 <= j < frame@.len() ==> raw_in_range(enc, #[trigger] frame@[j] as int),
            forall|j: int| 0 <= j < i ==> #[trigger] amps@[j] as int == spec_decode(
                enc,
                frame@[j] as int,
            ),
            forall|j: int| 0 <= j < i ==> amp_in_range(#[trigger] amps@[j] as int),
        decreases n - i,
    {
        amps.push(decode(enc, frame[i]));
        i = i + 1;
    }
    proof {
        assert(ints_of(amps@) =~= ints_of(frame@).map_values(|r: int| spec_decode(enc, r)));
    }
    apply_frame_chain(ffs, &mut amps);
    let ghost shaped = spec_frame_chain(ffs@, ints_of(frame@).map_values(|r: int| spec_decode(enc, r)));
    let mut out: Vec<i64> = Vec::new();
    let mut k: usize = 0;
    while k < n
        invariant
            k <= n,
            n == amps@.len(),
            out@.len() == k,
            ints_of(amps@) == shaped,
            forall|j: int| 0 <= j < amps@.len() ==> amp_in_range(#[trigger] amps@[j] as int),
            forall|j: int| 0 <= j < k ==> #[trigger] out@[j] as int == spec_encode(
                enc,
                spec_sample_chain(sfs@, shaped[j]),
            ),
            forall|j: int| 0 <= j < k ==> raw_in_range(enc, #[trigger] out@[j] as int),
        decreases n - k,
    {
        let a = apply_sample_chain(sfs, amps[k]);
        out.push(encode(enc, a));
        k = k + 1;
    }
    proof {
        assert(ints_of(out@) =~= spec_process_frame(enc, ffs@, sfs@, ints_of(frame@)));
    }
    out
}

/// Why a chain application was rejected; on any of these nothing is written
/// to the output buffer.
#[derive(Clone, Copy, Debug, PartialEq, Eq, Structural)]
pub enum ApplyError {
    /// The input and output buffers declare different encodings.
    EncodingMismatch,
    /// The buffers hold different numbers of raw values.
    LengthMismatch,
    /// The buffers disagree on samples per frame.
    ChannelMismatch,
}

/// The ordered filter chain: one registry of per-frame filters, one of
/// per-sample filters, both applied in ascending identifier order.
pub struct Filter {
    sample_filters: IdMap<SampleFilter>,
    frame_filters: IdMap<FrameFilter>,
}

impl Filter {
    /// The registry of per-sample filters.
    pub closed spec fn sample_registry(self) -> IdMap<SampleFilter> {
        self.sample_filters
    }

    /// The registry of per-frame filters.
    pub closed spec fn frame_registry(self) -> IdMap<FrameFilter> {
        self.frame_filters
    }

    /// Both registries well-formed.
    pub open spec fn wf(self) -> bool {
        self.sample_registry().wf() && self.frame_registry().wf()
    }

    /// The per-sample filters in application order (ascending identifier).
    pub open spec fn sample_seq(self) -> Seq<SampleFilter> {
        self.sample_registry().values_in_order()
    }

    /// The per-frame filters in application order (ascending identifier).
    pub open spec fn frame_seq(self) -> Seq<FrameFilter> {
        self.frame_registry().values_in_order()
    }

    /// Creates an empty chain.
    pub fn new() -> (r: Filter)
        ensures
            r.wf(),
            r.sample_registry().model() == crate::utils::empty_registry::<SampleFilter>(),
            r.frame_registry().model() == crate::utils::empty_registry::<FrameFilter>(),
            r.sample_registry().entries() == Map::<usize, SampleFilter>::empty(),
            r.frame_registry().entries() == Map::<usize, FrameFilter>::empty(),
            r.sample_seq() =~= Seq::<SampleFilter>::empty(),
            r.frame_seq() =~= Seq::<FrameFilter>::empty(),
    {
        Filter { sample_filters: IdMap::new(), frame_filters: IdMap::new() }
    }

    /// Registers a per-sample filter; the identifier returned is the
    /// smallest reusable one, or a fresh one, and is never one currently
    /// occupied.
    pub fn add_sample_filter(&mut self, f: SampleFilter) -> (id: usize)
        requires
            old(self).wf(),
            old(self).sample_registry().bound() < usize::MAX,
        ensures
            final(self).wf(),
            final(self).frame_registry() == old(self).frame_registry(),
            old(self).sample_registry().is_next_id(id),
            !old(self).sample_registry().entries().dom().contains(id),
            final(self).sample_registry().entries() == old(self).sample_registry()
                .entries().insert(id, f),
            final(self).sample_registry().holes() =~= old(self).sample_registry().holes().remove(
                id,
            ),
            final(self).sample_registry().bound() == if old(self).sample_registry()
                .holes().contains(id) {
                old(self).sample_registry().bound()
            } else {
                old(self).sample_registry().bound() + 1
            },
    {
        self.sample_filters.add(f)
    }

    /// Registers a per-frame filter, under the same identifier policy.
    pub fn add_frame_filter(&mut self, f: FrameFilter) -> (id: usize)
        requires
            old(self).wf(),
            old(self).frame_registry().bound() < usize::MAX,
        ensures
            final(self).wf(),
            final(self).sample_registry() == old(self).sample_registry(),
            old(self).frame_registry().is_next_id(id),
            !old(self).frame_registry().entries().dom().contains(id),
            final(self).frame_registry().entries() == old(self).frame_registry()
                .entries().insert(id, f),
            final(self).frame_registry().holes() =~= old(self).frame_registry().holes().remove(
                id,
            ),
            final(self).frame_registry().bound() == if old(self).frame_registry()
                .holes().contains(id) {
                old(self).frame_registry().bound()
            } else {
                old(self).frame_registry().bound() + 1
            },
    {
        self.frame_filters.add(f)
    }

    /// Unregisters a per-sample filter; a stale identifier is reported as
    /// not found and changes nothing.
    pub fn remove_sample_filter(&mut self, id: usize) -> (r: Result<(), ()>)
        requires
            old(self).wf(),
        ensures
            final(self).wf(),
            final(self).frame_registry() == old(self).frame_registry(),
            match r {
                Ok(()) => {
                    &&& old(self).sample_registry().entries().dom().contains(id)
                    &&& final(self).sample_registry().entries() == old(self).sample_registry()
                        .entries().remove(id)
                    &&& final(self).sample_registry().holes() == old(self).sample_registry()
                        .holes().insert(id)
                    &&& final(self).sample_registry().bound() == old(self).sample_registry()
                        .bound()
                },
                Err(()) => {
                    &&& !old(self).sample_registry().entries().dom().contains(id)
                    &&& final(self).sample_registry().entries() =~= old(self).sample_registry()
                        .entries()
                },
            },
    {
        match self.sample_filters.remove(id) {
            Some(_) => Ok(()),
            None => Err(()),
        }
    }

    /// Unregisters a per-frame filter; a stale identifier is reported as
    /// not found and changes nothing.
    pub fn remove_frame_filter(&mut self, id: usize) -> (r: Result<(), ()>)
        requires
            old(self).wf(),
        ensures
            final(self).wf(),
            final(self).sample_registry() == old(self).sample_registry(),
            match r {
                Ok(()) => {
                    &&& old(self).frame_registry().entries().dom().contains(id)
                    &&& final(self).frame_registry().entries() == old(self).frame_registry()
                        .entries().remove(id)
                    &&& final(self).frame_registry().holes() == old(self).frame_registry()
                        .holes().insert(id)
                    &&& final(self).frame_registry().bound() == old(self).frame_registry()
                        .bound()
                },
                Err(()) => {
                    &&& !old(self).frame_registry().entries().dom().contains(id)
                    &&& final(self).frame_registry().entries() =~= old(self).frame_registry()
                        .entries()
                },
            },
    {
        match self.frame_filters.remove(id) {
            Some(_) => Ok(()),
            None => Err(()),
        }
    }

    /// Applies the chain: for each frame of the input, in buffer order,
    /// every raw value is decoded, the frame filters run in ascending
    /// identifier order, the sample filters run in ascending identifier
    /// order on every resulting sample, and the result is encoded into the
    /// output. The buffers must agree on encoding, length and channel
    /// count; on any mismatch the output is left untouched. `sample_rate`
    /// is accepted for frequency-aware callers but not consulted here.
    pub fn apply(&self, sample_rate: usize, input: &Buffer, output: &mut Buffer) -> (r: Result<
        (),
        ApplyError,
    >)
        requires
            self.wf(),
            input.wf(),
            old(output).wf(),
        ensures
            final(output).wf(),
            final(output).spec_encoding() == old(output).spec_encoding(),
            final(output).spec_channels() == old(output).spec_channels(),
            match r {
                Ok(()) => {
                    &&& input.spec_encoding() == old(output).spec_encoding()
                    &&& input.spec_data().len() == old(output).spec_data().len()
                    &&& input.spec_channels() == old(output).spec_channels()
                    &&& final(output).spec_data() == spec_process_buffer(
                        input.spec_encoding(),
                        input.spec_channels(),
                        self.frame_seq(),
                        self.sample_seq(),
                        input.spec_data(),
                    )
                },
                Err(ApplyError::EncodingMismatch) => {
                    &&& input.spec_encoding() != old(output).spec_encoding()
                    &&& *final(output) == *old(output)
                },
                Err(ApplyError::LengthMismatch) => {
                    &&& input.spec_encoding() == old(output).spec_encoding()
                    &&& input.spec_data().len() != old(output).spec_data().len()
                    &&& *final(output) == *old(output)
                },
                Err(ApplyError::ChannelMismatch) => {
                    &&& input.spec_encoding() == old(output).spec_encoding()
                    &&& input.spec_data().len() == old(output).spec_data().len()
                    &&& input.spec_channels() != old(output).spec_channels()
                    &&& *final(output) == *old(output)
                },
            },
    {
        let enc = input.encoding();
        if !(enc == output.encoding()) {
            return Err(ApplyError::EncodingMismatch);
        }
        if input.len() != output.len() {
            return Err(ApplyError::LengthMismatch);
        }
        if input.channels() != output.channels() {
            return Err(ApplyError::ChannelMismatch);
        }
        let channels = input.channels();
        let n = input.len();
        let ffs = self.frame_filters.iter();
        let sfs = self.sample_filters.iter();
        let data = input.raw();
        let ghost target = spec_process_buffer(
            enc,
            channels as int,
            self.frame_seq(),
            self.sample_seq(),
            input.spec_data(),
        );
        let mut out: Vec<i64> = Vec::new();
        let mut fs: usize = 0;
        let ghost mut t: int = 0;
        while fs < n
            invariant
                input.wf(),
                enc == input.spec_encoding(),
                channels as int == input.spec_channels(),
                n as int == input.spec_data().len(),
                ints_of(data@) == input.spec_data(),
                ffs@ == self.frame_seq(),
                sfs@ == self.sample_seq(),
                target == spec_process_buffer(
                    enc,
                    channels as int,
                    self.frame_seq(),
                    self.sample_seq(),
                    input.spec_data(),
                ),
                fs as int == t * (channels as int),
                0 <= t,
                fs <= n,
                out@.len() == fs,
                forall|i: int| 0 <= i < fs ==> #[trigger] out@[i] as int == target[i],
                forall|i: int| 0 <= i < fs ==> raw_in_range(enc, #[trigger] out@[i] as int),
            decreases n - fs,
        {
            proof {
                lemma_fundamental_div_mod(n as int, channels as int);
                let q = (n as int) / (channels as int);
                assert(n as int == q * (channels as int)) by {
                    assert((input.spec_data().len() as int) % input.spec_channels() == 0);
                }
                assert(t < q) by (nonlinear_arith)
                    requires
                        t * (channels as int) < n,
                        n as int == q * (channels as int),
                        channels >= 1,
                        0 <= t,
                ;
                assert((t + 1) * (channels as int) <= n) by (nonlinear_arith)
                    requires
                        t + 1 <= q,
                        n as int == q * (channels as int),
                        channels >= 1,
                ;
                assert((t + 1) * (channels as int) == t * (channels as int) + (channels as int))
                    by (nonlinear_arith);
                assert(fs + channels <= n);
            }
            let mut frame: Vec<i64> = Vec::new();
            let mut k: usize = 0;
            while k < channels
                invariant
                    k <= channels,
                    fs + channels <= n,
                    n as int == data@.len(),
                    input.wf(),
                    enc == input.spec_encoding(),
                    ints_of(data@) == input.spec_data(),
                    frame@.len() == k,
                    forall|j: int| 0 <= j < k ==> #[trigger] frame@[j] == data@[fs + j],
                decreases channels - k,
            {
                frame.push(data[fs + k]);
                k = k + 1;
            }
            proof {
                assert forall|j: int| 0 <= j < frame@.len() implies raw_in_range(
                    enc,
                    #[trigger] frame@[j] as int,
                ) by {
                    assert(frame@[j] == data@[fs + j]);
                    assert(input.spec_data()[fs + j] == data@[fs + j] as int);
                }
            }
            let ghost gframe = frame@;
            let fr_out = process_frame(enc, &ffs, &sfs, frame);
            proof {
                assert(ints_of(gframe) =~= spec_frame_at(input.spec_data(), channels as int, t));
                assert forall|j: int| 0 <= j < channels as int implies target[fs + j]
                    == #[trigger] fr_out@[j] as int by {
                    lemma_fundamental_div_mod_converse(fs + j, channels as int, t, j);
                    assert((fs + j) / (channels as int) == t);
                    assert((fs + j) % (channels as int) == j);
                    assert(target[fs + j] == spec_process_frame(
                        enc,
                        self.frame_seq(),
                        self.sample_seq(),
                        spec_frame_at(input.spec_data(), channels as int, t),
                    )[j]);
                    assert(ints_of(fr_out@) == spec_process_frame(enc, ffs@, sfs@, ints_of(gframe)));
                    assert(ints_of(fr_out@)[j] == fr_out@[j] as int);
                }
            }
            let mut k2: usize = 0;
            while k2 < channels
                invariant
                    k2 <= channels,
                    fs + channels <= n,
                    channels as int == fr_out@.len(),
                    out@.len() == fs + k2,
                    forall|j: int| 0 <= j < channels as int ==> raw_in_range(
                        enc,
                        #[trigger] fr_out@[j] as int,
                    ),
                    forall|j: int| 0 <= j < channels as int ==> target[fs + j] == #[trigger] fr_out@[j] as int,
                    forall|i: int| 0 <= i < fs + k2 ==> #[trigger] out@[i] as int == target[i],
                    forall|i: int| 0 <= i < fs + k2 ==> raw_in_range(enc, #[trigger] out@[i] as int),
                decreases channels - k2,
            {
                out.push(fr_out[k2]);
                k2 = k2 + 1;
            }
            fs = fs + channels;
            proof {
                assert((t + 1) * (channels as int) == t * (channels as int) + (channels as int))
                    by (nonlinear_arith);
                t = t + 1;
            }
        }
        proof {
            assert(out@.len() == n);
            assert(ints_of(out@) =~= target);
        }
        output.set_raw(out);
        Ok(())
    }
}

impl Clone for Filter {
    /// Duplicates the chain cheaply: both registries are copied with their
    /// entries, holes and identifier high-water marks intact, so the copy
    /// filters identically. This is the copy-on-write primitive: a control
    /// thread clones, mutates the clone, and publishes it whole.
    fn clone(&self) -> (r: Self)
        ensures
            r.sample_registry().entries() == self.sample_registry().entries(),
            r.sample_registry().holes() == self.sample_registry().holes(),
            r.sample_registry().bound() == self.sample_registry().bound(),
            r.frame_registry().entries() == self.frame_registry().entries(),
            r.frame_registry().holes() == self.frame_registry().holes(),
            r.frame_registry().bound() == self.frame_registry().bound(),
            self.wf() ==> r.wf(),
    {
        Filter {
            sample_filters: self.sample_filters.clone(),
            frame_filters: self.frame_filters.clone(),
        }
    }
}

} // verus!
