use soundboard::buffer::{Buffer, BufferError};
use soundboard::filter::{ApplyError, Filter, FrameFilter, SampleFilter, GAIN_UNIT};
use soundboard::sample::{Encoding, SAMPLE_UNIT};

fn f32_buffer(channels: usize, data: Vec<i64>) -> Buffer {
    Buffer::new(Encoding::F32, channels, data).unwrap()
}

// 0.1 of full scale, exactly representable in the fixed-point domain.
const TENTH: i64 = SAMPLE_UNIT / 10;

#[test]
fn sample_filters_compose_in_identifier_order() {
    // double (x2) then add_one (+1): 0.1 * 2 + 1 = 1.2 per sample.
    let mut chain = Filter::new();
    chain.add_sample_filter(SampleFilter::Gain(2 * GAIN_UNIT));
    chain.add_sample_filter(SampleFilter::Offset(SAMPLE_UNIT));
    let input = f32_buffer(2, vec![TENTH; 4]);
    let mut output = f32_buffer(2, vec![0; 4]);
    assert_eq!(chain.apply(44100, &input, &mut output), Ok(()));
    let expected = 2 * TENTH + SAMPLE_UNIT; // 1.2 of full scale
    assert_eq!(*output.raw(), vec![expected; 4]);
}

#[test]
fn reversing_registration_order_changes_the_result() {
    // add_one (+1) then double (x2): (0.1 + 1) * 2 = 2.2 per sample.
    let mut chain = Filter::new();
    chain.add_sample_filter(SampleFilter::Offset(SAMPLE_UNIT));
    chain.add_sample_filter(SampleFilter::Gain(2 * GAIN_UNIT));
    let input = f32_buffer(2, vec![TENTH; 4]);
    let mut output = f32_buffer(2, vec![0; 4]);
    assert_eq!(chain.apply(44100, &input, &mut output), Ok(()));
    let expected = 2 * (TENTH + SAMPLE_UNIT); // 2.2 of full scale
    assert_eq!(*output.raw(), vec![expected; 4]);
}

#[test]
fn frame_filter_sees_all_channels_at_once() {
    // Averaging a stereo frame [0.2, 0.8] yields [0.5, 0.5].
    let mut chain = Filter::new();
    chain.add_frame_filter(FrameFilter::Average);
    let left = SAMPLE_UNIT / 5;
    let right = 4 * SAMPLE_UNIT / 5;
    let input = f32_buffer(2, vec![left, right]);
    let mut output = f32_buffer(2, vec![0, 0]);
    assert_eq!(chain.apply(48000, &input, &mut output), Ok(()));
    let half = SAMPLE_UNIT / 2;
    assert_eq!(*output.raw(), vec![half, half]);
}

#[test]
fn frame_filters_run_before_sample_filters() {
    // Average [0.2, 0.8] to 0.5, then double every sample: [1.0, 1.0].
    let mut chain = Filter::new();
    chain.add_sample_filter(SampleFilter::Gain(2 * GAIN_UNIT));
    chain.add_frame_filter(FrameFilter::Average);
    let input = f32_buffer(2, vec![SAMPLE_UNIT / 5, 4 * SAMPLE_UNIT / 5]);
    let mut output = f32_buffer(2, vec![0, 0]);
    assert_eq!(chain.apply(48000, &input, &mut output), Ok(()));
    assert_eq!(*output.raw(), vec![SAMPLE_UNIT, SAMPLE_UNIT]);
}

#[test]
fn reverse_swaps_stereo_channels() {
    let mut chain = Filter::new();
    chain.add_frame_filter(FrameFilter::Reverse);
    let input = f32_buffer(2, vec![1, 2, 3, 4]);
    let mut output = f32_buffer(2, vec![0; 4]);
    assert_eq!(chain.apply(8000, &input, &mut output), Ok(()));
    assert_eq!(*output.raw(), vec![2, 1, 4, 3]);
}

#[test]
fn empty_chain_copies_input() {
    let chain = Filter::new();
    let input = f32_buffer(1, vec![7, -7, 100]);
    let mut output = f32_buffer(1, vec![0; 3]);
    assert_eq!(chain.apply(8000, &input, &mut output), Ok(()));
    assert_eq!(*output.raw(), vec![7, -7, 100]);
}

#[test]
fn s16_output_saturates_instead_of_wrapping() {
    // 0.5 of full scale tripled exceeds full scale: the 16-bit encoding
    // saturates at the boundary.
    let mut chain = Filter::new();
    chain.add_sample_filter(SampleFilter::Gain(3 * GAIN_UNIT));
    let input = Buffer::new(Encoding::S16, 1, vec![16384, -16384]).unwrap();
    let mut output = Buffer::new(Encoding::S16, 1, vec![0, 0]).unwrap();
    assert_eq!(chain.apply(44100, &input, &mut output), Ok(()));
    assert_eq!(*output.raw(), vec![32767, -32768]);
}

#[test]
fn s16_chain_routes_through_the_codec() {
    // +0.5 on a zero 16-bit sample decodes, offsets and encodes to 16384.
    let mut chain = Filter::new();
    chain.add_sample_filter(SampleFilter::Offset(SAMPLE_UNIT / 2));
    let input = Buffer::new(Encoding::S16, 1, vec![0, 100]).unwrap();
    let mut output = Buffer::new(Encoding::S16, 1, vec![0, 0]).unwrap();
    assert_eq!(chain.apply(44100, &input, &mut output), Ok(()));
    assert_eq!(*output.raw(), vec![16384, 16484]);
}

#[test]
fn removed_filter_no_longer_applies() {
    let mut chain = Filter::new();
    let double = chain.add_sample_filter(SampleFilter::Gain(2 * GAIN_UNIT));
    chain.add_sample_filter(SampleFilter::Offset(SAMPLE_UNIT));
    assert_eq!(chain.remove_sample_filter(double), Ok(()));
    assert_eq!(chain.remove_sample_filter(double), Err(()));
    let input = f32_buffer(1, vec![TENTH]);
    let mut output = f32_buffer(1, vec![0]);
    assert_eq!(chain.apply(44100, &input, &mut output), Ok(()));
    assert_eq!(*output.raw(), vec![TENTH + SAMPLE_UNIT]);
}

#[test]
fn stale_frame_filter_removal_is_not_found() {
    let mut chain = Filter::new();
    assert_eq!(chain.remove_frame_filter(0), Err(()));
    let id = chain.add_frame_filter(FrameFilter::Average);
    assert_eq!(chain.remove_frame_filter(id), Ok(()));
    assert_eq!(chain.remove_frame_filter(id), Err(()));
}

#[test]
fn encoding_mismatch_is_rejected_before_any_write() {
    let chain = Filter::new();
    let input = f32_buffer(1, vec![1, 2]);
    let mut output = Buffer::new(Encoding::S16, 1, vec![5, 6]).unwrap();
    assert_eq!(
        chain.apply(44100, &input, &mut output),
        Err(ApplyError::EncodingMismatch)
    );
    // No partial mutation: the output bytes are exactly as they were.
    assert_eq!(*output.raw(), vec![5, 6]);
}

#[test]
fn length_mismatch_is_rejected_before_any_write() {
    let chain = Filter::new();
    let input = f32_buffer(1, vec![1, 2, 3]);
    let mut output = f32_buffer(1, vec![5, 6]);
    assert_eq!(
        chain.apply(44100, &input, &mut output),
        Err(ApplyError::LengthMismatch)
    );
    assert_eq!(*output.raw(), vec![5, 6]);
}

#[test]
fn channel_mismatch_is_rejected_before_any_write() {
    let chain = Filter::new();
    let input = f32_buffer(2, vec![1, 2]);
    let mut output = f32_buffer(1, vec![5, 6]);
    assert_eq!(
        chain.apply(44100, &input, &mut output),
        Err(ApplyError::ChannelMismatch)
    );
    assert_eq!(*output.raw(), vec![5, 6]);
}

#[test]
fn cloned_chain_filters_identically_until_mutated() {
    let mut chain = Filter::new();
    chain.add_sample_filter(SampleFilter::Gain(2 * GAIN_UNIT));
    let mut published = chain.clone();
    // Mutate the private copy; the published snapshot is unaffected.
    chain.add_sample_filter(SampleFilter::Offset(SAMPLE_UNIT));
    let input = f32_buffer(1, vec![TENTH]);
    let mut out_published = f32_buffer(1, vec![0]);
    let mut out_mutated = f32_buffer(1, vec![0]);
    assert_eq!(published.apply(44100, &input, &mut out_published), Ok(()));
    assert_eq!(chain.apply(44100, &input, &mut out_mutated), Ok(()));
    assert_eq!(*out_published.raw(), vec![2 * TENTH]);
    assert_eq!(*out_mutated.raw(), vec![2 * TENTH + SAMPLE_UNIT]);
    // Quiet the unused-mut expectation: published can itself evolve later.
    published.add_sample_filter(SampleFilter::Offset(0));
}

#[test]
fn buffer_rejects_zero_channels() {
    assert!(matches!(
        Buffer::new(Encoding::F32, 0, vec![1]),
        Err(BufferError::ZeroChannels)
    ));
}

#[test]
fn buffer_rejects_ragged_frames() {
    assert!(matches!(
        Buffer::new(Encoding::F32, 2, vec![1, 2, 3]),
        Err(BufferError::RaggedLength)
    ));
}

#[test]
fn buffer_rejects_raw_values_out_of_range() {
    assert!(matches!(
        Buffer::new(Encoding::S16, 1, vec![40000]),
        Err(BufferError::RawOutOfRange)
    ));
}
