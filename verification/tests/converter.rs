use catalina_dsp::convert::Converter;
use catalina_dsp::frame::Frame;
use catalina_dsp::interp::{Floor, Interpolator, Linear};
use catalina_dsp::num::OUT_MAX;
use catalina_dsp::signal::{FromFrames, Signal};
use catalina_dsp::sinc::Sinc;

fn mono_frames(vals: &[i64]) -> Vec<Frame> {
    let mut out: Vec<Frame> = Vec::new();
    let mut i: usize = 0;
    while i < vals.len() {
        out.push(Frame::new(vec![vals[i]]));
        i += 1;
    }
    out
}

fn mono_signal(vals: &[i64]) -> FromFrames {
    FromFrames::new(mono_frames(vals), 1)
}

/// A windowed-sinc coefficient bank in Q16: `rows` phase steps over a
/// window of `cap` frames, Hann-apodized.
fn sinc_table(rows: usize, cap: usize) -> Vec<Vec<i64>> {
    let pi = std::f64::consts::PI;
    let half = cap as f64 / 2.0;
    let mut table: Vec<Vec<i64>> = Vec::new();
    let mut p: usize = 0;
    while p < rows {
        let x = p as f64 / rows as f64;
        let mut row: Vec<i64> = Vec::new();
        let mut j: usize = 0;
        while j < cap {
            let offset = j as f64 - (half - 1.0) - x;
            let sinc = if offset.abs() < 1e-9 {
                1.0
            } else {
                (pi * offset).sin() / (pi * offset)
            };
            let hann = 0.5 * (1.0 + (pi * offset / half).cos());
            row.push((sinc * hann * 65536.0).round() as i64);
            j += 1;
        }
        table.push(row);
        p += 1;
    }
    table
}

#[test]
fn test_floor_converter() {
    let mut source = mono_signal(&[0, 65536, 131072]);
    let interp = Floor::new(source.next());
    let mut conv = Converter::scale_playback_hz(source, interp, 32768).unwrap();

    assert_eq!(conv.next().get(0), 0);
    assert_eq!(conv.next().get(0), 0);
    assert_eq!(conv.next().get(0), 65536);
    assert_eq!(conv.next().get(0), 65536);
    // It may seem odd that we keep emitting values, but no matter what the
    // next value would be, a zero-order hold always yields the same frame
    // until the accumulator forces an advance.
    assert_eq!(conv.next().get(0), 131072);
    assert_eq!(conv.next().get(0), 131072);
}

#[test]
fn test_linear_converter() {
    let mut source = mono_signal(&[0, 65536, 131072]);
    let a = source.next();
    let b = source.next();
    let interp = Linear::new(a, b);
    let mut conv = Converter::scale_playback_hz(source, interp, 32768).unwrap();

    assert_eq!(conv.next().get(0), 0);
    assert_eq!(conv.next().get(0), 32768);
    assert_eq!(conv.next().get(0), 65536);
    assert_eq!(conv.next().get(0), 98304);
    assert_eq!(conv.next().get(0), 131072);
    // There's nothing left to interpolate toward, but we still emit the
    // correct number of frames: the blend falls back toward silence.
    assert_eq!(conv.next().get(0), 65536);
}

#[test]
fn test_scale_playback_rate() {
    // Scale the playback rate by one half.
    let mut source = mono_signal(&[0, 65536, 0, -65536]);
    let a = source.next();
    let b = source.next();
    let interp = Linear::new(a, b);
    let mut conv = Converter::scale_playback_hz(source, interp, 32768).unwrap();
    let expected: [i64; 8] = [0, 32768, 65536, 32768, 0, -32768, -65536, -32768];
    let mut i: usize = 0;
    while i < expected.len() {
        assert_eq!(conv.next().get(0), expected[i]);
        i += 1;
    }
}

#[test]
fn test_sinc() {
    let source = mono_signal(&[0, 65536, 0, -65536]);
    let interp = Sinc::new(1, sinc_table(8, 50)).unwrap();
    let mut conv = Converter::from_hz_to_hz(source, interp, 44100, 11025).unwrap();
    let mut produced: usize = 0;
    while !conv.is_exhausted() {
        let f = conv.next();
        let s = f.get(0);
        assert!(-OUT_MAX <= s && s <= OUT_MAX);
        produced += 1;
        assert!(produced < 100);
    }
    assert!(produced > 0);
}

#[test]
fn sinc_rejects_overdriven_table() {
    // One row whose absolute weight sum exceeds the admitted kernel gain.
    let row: Vec<i64> = vec![524288, 1];
    assert!(Sinc::new(1, vec![row]).is_none());
    // Ragged rows are rejected too.
    assert!(Sinc::new(1, vec![vec![100, 100], vec![100]]).is_none());
    // A tame table is admitted.
    assert!(Sinc::new(1, vec![vec![32768, 32768], vec![65536, 0]]).is_some());
}

#[test]
fn round_trip_rate_scaling() {
    // Up by two, back down by two, with linear interpolation: the original
    // sequence comes back exactly.
    let original: [i64; 8] = [0, 32768, 65536, 32768, 0, -32768, -65536, -32768];
    let mut source = mono_signal(&original);
    let a = source.next();
    let b = source.next();
    let mut up = Converter::scale_playback_hz(source, Linear::new(a, b), 32768).unwrap();
    let mut upsampled: Vec<i64> = Vec::new();
    let mut i: usize = 0;
    while i < 16 {
        upsampled.push(up.next().get(0));
        i += 1;
    }
    let mut mid = mono_signal(&upsampled);
    let a2 = mid.next();
    let b2 = mid.next();
    let mut down = Converter::scale_playback_hz(mid, Linear::new(a2, b2), 131072).unwrap();
    let mut j: usize = 0;
    while j < original.len() {
        assert_eq!(down.next().get(0), original[j]);
        j += 1;
    }
}

#[test]
fn live_rescale_only_touches_ratio() {
    let mut source = mono_signal(&[0, 65536, 131072, 196608]);
    let a = source.next();
    let b = source.next();
    let mut conv = Converter::scale_playback_hz(source, Linear::new(a, b), 32768).unwrap();
    assert_eq!(conv.next().get(0), 0);
    assert_eq!(conv.next().get(0), 32768);
    // Double the playback rate mid-stream: the phase keeps its fraction.
    conv.set_playback_hz_scale(65536);
    assert_eq!(conv.next().get(0), 65536);
    assert_eq!(conv.next().get(0), 131072);
}

#[test]
fn hz_constructors_agree() {
    let s1 = mono_signal(&[0, 65536]);
    let f1 = Floor::new(Frame::new(vec![0]));
    // 44100 to 88200 halves the ratio.
    let c1 = Converter::from_hz_to_hz(s1, f1, 44100, 88200).unwrap();
    drop(c1);
    let s2 = mono_signal(&[0, 65536]);
    let f2 = Floor::new(Frame::new(vec![0]));
    // A sample-rate scale of two is the same conversion.
    let c2 = Converter::scale_sample_hz(s2, f2, 131072).unwrap();
    drop(c2);
    // A zero ratio is rejected at construction.
    let s3 = mono_signal(&[0]);
    let f3 = Floor::new(Frame::new(vec![0]));
    assert!(Converter::scale_playback_hz(s3, f3, 0).is_none());
}

#[test]
fn interpolator_reset_restores_silence() {
    let mut f = Floor::new(Frame::new(vec![65536]));
    f.reset();
    assert_eq!(f.interpolate(0).get(0), 0);
    let mut l = Linear::new(Frame::new(vec![65536]), Frame::new(vec![131072]));
    l.next_source_frame(Frame::new(vec![196608]));
    // The window slid: the old newer frame became the older one.
    assert_eq!(l.interpolate(0).get(0), 131072);
    l.reset();
    assert_eq!(l.interpolate(32768).get(0), 0);
}

#[test]
fn sinc_weights_count_back_from_most_recent() {
    // A single unit weight on entry zero answers the most recent frame.
    let mut s = Sinc::new(1, vec![vec![65536, 0, 0, 0]]).unwrap();
    s.next_source_frame(Frame::new(vec![111]));
    s.next_source_frame(Frame::new(vec![222]));
    assert_eq!(s.interpolate(0).get(0), 222);
    // A unit weight on entry one answers the frame before it.
    let mut t = Sinc::new(1, vec![vec![0, 65536, 0, 0]]).unwrap();
    t.next_source_frame(Frame::new(vec![111]));
    t.next_source_frame(Frame::new(vec![222]));
    assert_eq!(t.interpolate(0).get(0), 111);
}

#[test]
fn set_rate_variants() {
    let mut source = mono_signal(&[0, 65536, 131072, 196608]);
    let interp = Floor::new(source.next());
    let mut conv = Converter::scale_playback_hz(source, interp, 65536).unwrap();
    assert_eq!(conv.next().get(0), 0);
    assert_eq!(conv.next().get(0), 65536);
    // Halving the target rate doubles the ratio.
    conv.set_hz_to_hz(44100, 22050);
    assert_eq!(conv.next().get(0), 131072);
    // Two source frames consumed per output now; the source runs dry and
    // the hold falls back to silence.
    assert_eq!(conv.next().get(0), 0);
    // A sample-rate scale of two brings the ratio back to one half.
    conv.set_sample_hz_scale(131072);
    assert_eq!(conv.next().get(0), 0);
}

#[test]
fn converter_source_access() {
    let mut source = mono_signal(&[0, 65536]);
    let interp = Floor::new(source.next());
    let mut conv = Converter::scale_playback_hz(source, interp, 65536).unwrap();
    assert!(!conv.source().is_exhausted());
    let _ = conv.source_mut().next();
    let back = conv.into_source();
    assert!(back.is_exhausted());
}
