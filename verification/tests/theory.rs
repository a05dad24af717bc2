use catalina_dsp::note::{NamedPitch, Note, Octave, Pitch};
use catalina_dsp::osc::OscillatorType;

#[test]
fn note_getters() {
    let n = Note::new(NamedPitch::A, Octave { level: 4 });
    assert_eq!(n.octave(), Octave { level: 4 });
    assert_eq!(n.pitch(), Pitch::A);
}

#[test]
fn concert_pitch_frequency() {
    // A4 is 440 Hz: 27.5 Hz at octave zero, doubled four times.
    let n = Note::new(NamedPitch::A, Octave { level: 4 });
    assert_eq!(n.frequency(), 440000);
}

#[test]
fn sharp_spellings_wrap_upward() {
    // B sharp names the C a semitone up, one octave higher.
    let n = Note::new(NamedPitch::BSharp, Octave { level: 3 });
    assert_eq!(n.pitch(), Pitch::C);
    assert_eq!(n.frequency(), 261632);
    // A triple sharp also lands on C, an octave up.
    let m = Note::new(NamedPitch::ATripleSharp, Octave { level: 3 });
    assert_eq!(m.pitch(), Pitch::C);
    assert_eq!(m.frequency(), 261632);
}

#[test]
fn flat_spellings_wrap_downward() {
    // C flat names the B a semitone down, one octave lower.
    let n = Note::new(NamedPitch::CFlat, Octave { level: 4 });
    assert_eq!(n.pitch(), Pitch::B);
    assert_eq!(n.frequency(), 246944);
    let m = Note::new(NamedPitch::DTripleFlat, Octave { level: 4 });
    assert_eq!(m.pitch(), Pitch::B);
    assert_eq!(m.frequency(), 246944);
}

#[test]
fn plain_spellings_stay_put() {
    let n = Note::new(NamedPitch::CSharp, Octave { level: 0 });
    assert_eq!(n.pitch(), Pitch::CSharp);
    assert_eq!(n.frequency(), 17324);
}

#[test]
fn oscillator_type_is_plain_data() {
    let t = OscillatorType::Saw;
    assert_eq!(t, OscillatorType::Saw);
    assert_ne!(t, OscillatorType::Sine);
    let u = t;
    assert_eq!(u, OscillatorType::Saw);
    assert!(matches!(OscillatorType::Square, OscillatorType::Square));
}
