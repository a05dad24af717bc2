use catalina_dsp::detect::{Detect, Peak, Rms};
use catalina_dsp::envelope::EnvelopeFollower;
use catalina_dsp::frame::Frame;

fn mono(v: i64) -> Frame {
    Frame::new(vec![v])
}

#[test]
fn rms_converges_on_constant_input() {
    // A constant input of 2.0 (whose square has no fractional Q16 part):
    // once the window is full the detector reports exactly 2.0, for each
    // window length.
    let windows: [usize; 3] = [1, 4, 16];
    let mut wi: usize = 0;
    while wi < windows.len() {
        let w = windows[wi];
        let mut det = Rms::new(1, w);
        let mut i: usize = 0;
        let mut last: i64 = 0;
        while i < 2 * w {
            last = det.detect(&mono(131072));
            if i + 1 >= w {
                assert_eq!(last, 131072);
            }
            i += 1;
        }
        assert_eq!(last, 131072);
        wi += 1;
    }
}

#[test]
fn rms_one_frame_window_is_magnitude() {
    let mut det = Rms::new(1, 1);
    // 1.0 squared is exactly one Q16 unit: the root comes straight back.
    assert_eq!(det.detect(&mono(65536)), 65536);
    assert_eq!(det.detect(&mono(-65536)), 65536);
    assert_eq!(det.detect(&mono(0)), 0);
}

#[test]
fn peak_matches_bruteforce_window_max() {
    // Feed a deterministic pseudo-random sequence and check every answer
    // against a brute-force maximum over exactly the last four inputs —
    // including after a maximum ages out of the window.
    let w: usize = 4;
    let mut det = Peak::new(1, w);
    let mut history: Vec<i64> = Vec::new();
    let mut seed: i64 = 12345;
    let mut i: usize = 0;
    while i < 40 {
        seed = (seed * 1103515245 + 12345) % 2147483648;
        let v: i64 = (seed % 131072) - 65536;
        let m = if v >= 0 { v } else { -v };
        history.push(m);
        let got = det.detect(&mono(v));
        // Reference: maximum over the last w measures, zero-padded while
        // the window is still young.
        let mut best: i64 = 0;
        let mut j: usize = if history.len() > w { history.len() - w } else { 0 };
        while j < history.len() {
            if history[j] > best {
                best = history[j];
            }
            j += 1;
        }
        assert_eq!(got, best);
        i += 1;
    }
}

#[test]
fn follower_hold_max_regime() {
    // Attack one, release zero: the envelope holds the maximum ever seen.
    // A window of one frame makes the peak detector report the current
    // magnitude, so the envelope is the running maximum of |input|.
    let mut env = EnvelopeFollower::peak(1, 1, 65536, 0);
    let inputs: [i64; 6] = [16384, 65536, 32768, -131072, 8192, 131072];
    let expected: [i64; 6] = [16384, 65536, 65536, 131072, 131072, 131072];
    let mut i: usize = 0;
    while i < inputs.len() {
        assert_eq!(env.detect(&mono(inputs[i])), expected[i]);
        i += 1;
    }
}

#[test]
fn follower_tracks_with_unit_coefficients() {
    // Both coefficients one: no smoothing, the envelope is the detector
    // output itself.
    let mut env = EnvelopeFollower::peak(1, 1, 65536, 65536);
    let inputs: [i64; 5] = [16384, 65536, 32768, -8192, 0];
    let mut i: usize = 0;
    while i < inputs.len() {
        let v = inputs[i];
        let m = if v >= 0 { v } else { -v };
        assert_eq!(env.detect(&mono(v)), m);
        i += 1;
    }
}

#[test]
fn follower_rms_smoothing_moves_toward_detector() {
    // A half-strength attack moves the envelope halfway toward a rising
    // detector output each frame.
    let mut env = EnvelopeFollower::rms(1, 1, 32768, 32768);
    // Constant 2.0 input: the detector answers 2.0 every frame.
    assert_eq!(env.detect(&mono(131072)), 65536);
    assert_eq!(env.detect(&mono(131072)), 98304);
    assert_eq!(env.detect(&mono(131072)), 114688);
    // Silence: the release walks back down by halves.
    assert_eq!(env.detect(&mono(0)), 57344);
    assert_eq!(env.detect(&mono(0)), 28672);
}
