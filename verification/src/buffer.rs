//! Audio buffers: an ordered sequence of frames, all of one declared
//! encoding, each frame holding one raw value per channel.
//!
//! A raw value is what stands on the wire for one sample: for the 16-bit
//! integer encoding a value in the 16-bit range, for the float encoding an
//! amplitude of the engine's fixed-point domain, which that encoding passes
//! through unchanged.

use vstd::prelude::*;
use crate::sample::{Encoding, raw_in_range};

verus! {

/// Maps a sequence of machine words to the mathematical integers they carry.
pub open spec fn ints_of(s: Seq<i64>) -> Seq<int> {
    s.map_values(|x: i64| x as int)
}

/// Why a buffer could not be built.
#[derive(Clone, Copy, Debug, PartialEq, Eq, Structural)]
pub enum BufferError {
    /// A buffer must hold at least one channel per frame.
    ZeroChannels,
    /// The raw data does not divide into whole frames.
    RaggedLength,
    /// A raw value does not fit the declared encoding.
    RawOutOfRange,
}

/// An ordered sequence of frames in one declared encoding.
pub struct Buffer {
    encoding: Encoding,
    channels: usize,
    data: Vec<i64>,
}

impl Buffer {
    /// The declared encoding of every raw value in the buffer.
    pub closed spec fn spec_encoding(self) -> Encoding {
        self.encoding
    }

    /// Samples per frame.
    pub closed spec fn spec_channels(self) -> int {
        self.channels as int
    }

    /// The raw values, frame after frame.
    pub closed spec fn spec_data(self) -> Seq<int> {
        ints_of(self.data@)
    }

    /// The buffer invariant: at least one channel, whole frames only, and
    /// every raw value within the declared encoding's range.
    pub open spec fn wf(self) -> bool {
        &&& self.spec_channels() >= 1
        &&& (self.spec_data().len() as int) % self.spec_channels() == 0
        &&& forall|i: int|
            0 <= i < self.spec_data().len() ==> raw_in_range(
                self.spec_encoding(),
                #[trigger] self.spec_data()[i],
            )
    }

    /// Builds a buffer after validating the frame shape and the range of
    /// every raw value; on failure nothing is built and the error says which
    /// check failed first.
    pub fn new(encoding: Encoding, channels: usize, data: Vec<i64>) -> (r: Result<
        Buffer,
        BufferError,
    >)
        ensures
            match r {
                Ok(b) => {
                    &&& channels >= 1
                    &&& (data@.len() as int) % (channels as int) == 0
                    &&& forall|i: int|
                        0 <= i < data@.len() ==> raw_in_range(encoding, #[trigger] data@[i] as int)
                    &&& b.wf()
                    &&& b.spec_encoding() == encoding
                    &&& b.spec_channels() == channels as int
                    &&& b.spec_data() == ints_of(data@)
                },
                Err(BufferError::ZeroChannels) => channels == 0,
                Err(BufferError::RaggedLength) => channels >= 1 && (data@.len() as int) % (channels as int)
                    != 0,
                Err(BufferError::RawOutOfRange) => {
                    &&& channels >= 1
                    &&& (data@.len() as int) % (channels as int) == 0
                    &&& exists|i: int|
                        0 <= i < data@.len() && !raw_in_range(
                            encoding,
                            #[trigger] data@[i] as int,
                        )
                },
            },
    {
        if channels == 0 {
            return Err(BufferError::ZeroChannels);
        }
        if data.len() % channels != 0 {
            return Err(BufferError::RaggedLength);
        }
        let mut i: usize = 0;
        while i < data.len()
            invariant
                i <= data@.len(),
                channels >= 1,
                (data@.len() as int) % (channels as int) == 0,
                forall|j: int| 0 <= j < i ==> raw_in_range(encoding, #[trigger] data@[j] as int),
            decreases data@.len() - i,
        {
            let ok = match encoding {
                Encoding::F32 => -crate::sample::AMP_LIMIT <= data[i] && data[i]
                    <= crate::sample::AMP_LIMIT,
                Encoding::S16 => -32768 <= data[i] && data[i] <= 32767,
            };
            if !ok {
                proof {
                    assert(0 <= (i as int) < data@.len() && !raw_in_range(
                        encoding,
                        data@[i as int] as int,
                    ));
                    assert(exists|j: int|
                        0 <= j < data@.len() && !raw_in_range(
                            encoding,
                            #[trigger] data@[j] as int,
                        ));
                }
                return Err(BufferError::RawOutOfRange);
            }
            i = i + 1;
        }
        Ok(Buffer { encoding, channels, data })
    }

    /// The declared encoding.
    pub fn encoding(&self) -> (e: Encoding)
        ensures
            e == self.spec_encoding(),
    {
        self.encoding
    }

    /// Samples per frame.
    pub fn channels(&self) -> (c: usize)
        ensures
            c as int == self.spec_channels(),
    {
        self.channels
    }

    /// How many raw values the buffer holds.
    pub fn len(&self) -> (n: usize)
        ensures
            n as int == self.spec_data().len(),
    {
        self.data.len()
    }

    /// The raw values, frame after frame.
    pub fn raw(&self) -> (r: &Vec<i64>)
        ensures
            ints_of(r@) == self.spec_data(),
    {
        &self.data
    }

    /// Swaps the raw values for new ones of the same shape and range
    /// (engine internal: the filter chain writes its result through this).
    pub(crate) fn set_raw(&mut self, data: Vec<i64>)
        requires
            data@.len() == old(self).spec_data().len(),
            forall|i: int|
                0 <= i < data@.len() ==> raw_in_range(
                    old(self).spec_encoding(),
                    #[trigger] data@[i] as int,
                ),
        ensures
            final(self).spec_encoding() == old(self).spec_encoding(),
            final(self).spec_channels() == old(self).spec_channels(),
            final(self).spec_data() == ints_of(data@),
            old(self).wf() ==> final(self).wf(),
    {
        self.data = data;
    }
}

} // verus!
