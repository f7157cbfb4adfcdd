//! Buffer tests. Samples are fixed-point integers in millionths
//! (`UNIT` == 1_000_000 stands for 1.0), so every expectation is exact.

use motif::buffer::AudioBuffer;

const HALF: i64 = 500_000;
const THREE_TENTHS: i64 = 300_000;
const ONE: i64 = 1_000_000;

#[test]
fn new() {
    let buffer = AudioBuffer::new(2, 512);

    assert_eq!(buffer.channels(), 2);
    assert_eq!(buffer.frames(), 0)
}

#[test]
fn prepare() {
    let mut buffer = AudioBuffer::new(2, 512);
    buffer.prepare(256);

    let empty = vec![0i64; 256];

    assert_eq!(buffer.frames(), 256);
    assert_eq!(buffer.channel(0), empty.as_slice());
    assert_eq!(buffer.channel(1), empty.as_slice());
}

#[test]
fn channel_write_and_read() {
    let mut buffer = AudioBuffer::new(2, 512);
    buffer.prepare(4);

    buffer.set_sample(0, 0, 1);
    buffer.set_sample(0, 1, 2);
    buffer.set_sample(0, 2, 3);
    buffer.set_sample(0, 3, 4);

    buffer.set_sample(1, 0, 5);
    buffer.set_sample(1, 1, 6);
    buffer.set_sample(1, 2, 7);
    buffer.set_sample(1, 3, 8);

    assert_eq!(buffer.channel(0), &[1, 2, 3, 4]);
    assert_eq!(buffer.channel(1), &[5, 6, 7, 8]);
}

#[test]
fn channel_slice_length_matches_frames_not_max() {
    let mut buffer = AudioBuffer::new(2, 512);
    buffer.prepare(64);

    assert_eq!(buffer.channel(0).len(), 64);
}

fn fill(buffer: &mut AudioBuffer, value: i64) {
    for ch in 0..buffer.channels() {
        for frame in 0..buffer.frames() {
            buffer.set_sample(ch, frame, value);
        }
    }
}

#[test]
fn mix_from_adds_values() {
    let mut destination = AudioBuffer::new(2, 4);
    destination.prepare(4);
    fill(&mut destination, HALF);

    let mut source = AudioBuffer::new(2, 4);
    source.prepare(4);
    fill(&mut source, THREE_TENTHS);

    destination.mix_from(&source);

    for &sample in destination.channel(0) {
        assert_eq!(sample, HALF + THREE_TENTHS);
    }

    for &sample in destination.channel(1) {
        assert_eq!(sample, HALF + THREE_TENTHS);
    }
}

#[test]
fn mix_from_into_zeroed_equals_source() {
    let mut destination = AudioBuffer::new(2, 4);
    destination.prepare(4);

    let mut source = AudioBuffer::new(2, 4);
    source.prepare(4);
    for (i, v) in [1, 2, 3, 4].into_iter().enumerate() {
        source.set_sample(0, i, v);
    }
    for (i, v) in [5, 6, 7, 8].into_iter().enumerate() {
        source.set_sample(1, i, v);
    }

    destination.mix_from(&source);

    assert_eq!(destination.channel(0), source.channel(0));
    assert_eq!(destination.channel(1), source.channel(1));
}

#[test]
fn mix_from_is_additive() {
    let mut destination = AudioBuffer::new(2, 4);
    destination.prepare(4);

    let mut source = AudioBuffer::new(2, 4);
    source.prepare(4);
    for i in 0..4 {
        source.set_sample(0, i, ONE);
        source.set_sample(1, i, 2 * ONE);
    }

    destination.mix_from(&source);
    destination.mix_from(&source);

    for &sample in destination.channel(0) {
        assert_eq!(sample, 2 * ONE);
    }

    for &sample in destination.channel(1) {
        assert_eq!(sample, 4 * ONE);
    }
}

#[test]
fn apply_stereo_gain_half_left() {
    let mut buffer = AudioBuffer::new(2, 4);
    buffer.prepare(4);
    fill(&mut buffer, ONE);

    buffer.apply_stereo_gain(HALF as u64, ONE as u64);

    for &sample in buffer.channel(0) {
        assert_eq!(sample, HALF);
    }

    for &sample in buffer.channel(1) {
        assert_eq!(sample, ONE);
    }
}

#[test]
fn apply_stereo_gain_zero() {
    let mut buffer = AudioBuffer::new(2, 4);
    buffer.prepare(4);
    fill(&mut buffer, ONE);

    buffer.apply_stereo_gain(0, 0);

    for &sample in buffer.channel(0) {
        assert_eq!(sample, 0);
    }

    for &sample in buffer.channel(1) {
        assert_eq!(sample, 0);
    }
}

#[test]
fn apply_stereo_gain_unity() {
    let mut buffer = AudioBuffer::new(2, 4);
    buffer.prepare(4);

    for (i, v) in [100_000, 200_000, 300_000, 400_000].into_iter().enumerate() {
        buffer.set_sample(0, i, v);
    }
    for (i, v) in [500_000, 600_000, 700_000, 800_000].into_iter().enumerate() {
        buffer.set_sample(1, i, v);
    }

    buffer.apply_stereo_gain(ONE as u64, ONE as u64);

    assert_eq!(buffer.channel(0), &[100_000, 200_000, 300_000, 400_000]);
    assert_eq!(buffer.channel(1), &[500_000, 600_000, 700_000, 800_000]);
}

#[test]
fn write_interleaved_basic() {
    let mut buffer = AudioBuffer::new(2, 4);
    buffer.prepare(3);
    for (i, v) in [1, 2, 3].into_iter().enumerate() {
        buffer.set_sample(0, i, v);
    }
    for (i, v) in [4, 5, 6].into_iter().enumerate() {
        buffer.set_sample(1, i, v);
    }

    let mut output = vec![0i64; 6];
    buffer.write_interleaved(&mut output);

    assert_eq!(output, &[1, 4, 2, 5, 3, 6]);
}

#[test]
fn write_interleaved_single_frame() {
    let mut buffer = AudioBuffer::new(2, 4);
    buffer.prepare(1);
    buffer.set_sample(0, 0, 1);
    buffer.set_sample(1, 0, 2);

    let mut output = vec![0i64; 2];
    buffer.write_interleaved(&mut output);

    assert_eq!(output, &[1, 2]);
}

#[test]
fn partial_write_leaves_rest_zero() {
    let mut buffer = AudioBuffer::new(2, 8);
    buffer.prepare(8);

    buffer.set_sample(0, 2, 1);
    buffer.set_sample(0, 3, 2);
    buffer.set_sample(0, 4, 3);

    assert_eq!(buffer.channel(0), &[0, 0, 1, 2, 3, 0, 0, 0]);
}

#[test]
fn prepare_zeroes_the_prepared_region() {
    let mut buffer = AudioBuffer::new(1, 8);
    buffer.prepare(8);
    fill(&mut buffer, 9);

    buffer.prepare(4);
    assert_eq!(buffer.frames(), 4);
    assert_eq!(buffer.channel(0), &[0, 0, 0, 0]);
}
