use catalina_dsp::frame::{sample_from_i16, sample_to_i16, Frame};
use catalina_dsp::num::{div_unit, isqrt, mul_frac};
use catalina_dsp::ring::CircularBuffer;
use catalina_dsp::signal::{FromFrames, Signal};

#[test]
fn buffer_retains_latest_after_overflow() {
    // Capacity four, nine pushes (k = 5 overflowing): length stays at
    // capacity, index zero is the most recent push, and the oldest
    // retained element sits exactly k pushes past the original first one.
    let mut buf: CircularBuffer<i64> = CircularBuffer::with_capacity(4, 0);
    let mut v: i64 = 1;
    while v <= 9 {
        buf.push(v);
        v += 1;
    }
    assert_eq!(buf.len(), 4);
    assert_eq!(*buf.get(0), 9);
    assert_eq!(*buf.get(1), 8);
    assert_eq!(*buf.get(2), 7);
    assert_eq!(*buf.get(3), 6);
    assert!(buf.is_full());
    assert_eq!(buf.capacity(), 4);
}

#[test]
fn buffer_partial_fill() {
    let mut buf: CircularBuffer<i64> = CircularBuffer::with_capacity(3, 0);
    assert_eq!(buf.len(), 0);
    assert!(!buf.is_full());
    buf.push(10);
    buf.push(20);
    assert_eq!(buf.len(), 2);
    assert_eq!(*buf.get(0), 20);
    assert_eq!(*buf.get(1), 10);
}

#[test]
fn buffer_from_vec_starts_full() {
    let buf = CircularBuffer::from_vec(vec![1i64, 2, 3]);
    assert_eq!(buf.len(), 3);
    assert!(buf.is_full());
    // The last element of the vec is the most recent one.
    assert_eq!(*buf.get(0), 3);
    assert_eq!(*buf.get(2), 1);
}

#[test]
fn frame_arithmetic() {
    let a = Frame::new(vec![65536, -32768]);
    let b = Frame::new(vec![32768, -32768]);
    let sum = a.add(&b);
    assert_eq!(sum.get(0), 98304);
    assert_eq!(sum.get(1), -65536);
    let halved = sum.scale(32768);
    assert_eq!(halved.get(0), 49152);
    assert_eq!(halved.get(1), -32768);
    assert_eq!(a.channels(), 2);
    let silence = Frame::silence(2);
    assert_eq!(silence.get(0), 0);
    assert_eq!(silence.get(1), 0);
    assert_eq!(a.duplicate(), a);
}

#[test]
fn fixed_point_helpers() {
    // Q16 multiply rounds toward zero on both sides of zero.
    assert_eq!(mul_frac(-65536, 32768), -32768);
    assert_eq!(mul_frac(65537, 32768), 32768);
    assert_eq!(mul_frac(-65537, 32768), -32768);
    assert_eq!(div_unit(-131072), -2);
    assert_eq!(div_unit(131071), 1);
    // Integer square roots.
    assert_eq!(isqrt(0), 0);
    assert_eq!(isqrt(15), 3);
    assert_eq!(isqrt(16), 4);
    assert_eq!(isqrt(17179869184), 131072);
}

#[test]
fn pcm_conversion_round_trip() {
    // PCM to Q16 is lossless and comes back exactly.
    assert_eq!(sample_from_i16(16384), 32768);
    assert_eq!(sample_from_i16(-32768), -65536);
    assert_eq!(sample_to_i16(sample_from_i16(12345)), 12345);
    assert_eq!(sample_to_i16(sample_from_i16(-12345)), -12345);
    // Values beyond full PCM scale saturate instead of panicking.
    assert_eq!(sample_to_i16(131072), 32767);
    assert_eq!(sample_to_i16(-131072), -32768);
    // Odd Q16 values round toward zero.
    assert_eq!(sample_to_i16(3), 1);
    assert_eq!(sample_to_i16(-3), -1);
}

#[test]
fn signal_silence_after_exhaustion() {
    let mut s = FromFrames::new(vec![Frame::new(vec![42])], 1);
    assert!(!s.is_exhausted());
    assert_eq!(s.next().get(0), 42);
    assert!(s.is_exhausted());
    // Pulling past exhaustion is defined: it yields silence forever.
    assert_eq!(s.next().get(0), 0);
    assert_eq!(s.next().get(0), 0);
}
