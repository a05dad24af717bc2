//! Musical-theory types: pitches, octaves and notes.
//!
//! A note is a named pitch spelling together with an octave. Frequencies
//! are carried in millihertz so the whole module stays on exact integers:
//! each pitch class has its octave-zero base frequency, and a note's
//! frequency doubles per octave, with the octave corrected when a spelling
//! wraps past `B` (sharp side) or under `C` (flat side).

use vstd::prelude::*;

verus! {

/// One of the twelve chromatic pitch classes.
#[derive(PartialEq, Eq, Structural, Copy, Clone, Debug, Hash)]
pub enum Pitch {
    C,
    CSharp,
    D,
    DSharp,
    E,
    F,
    FSharp,
    G,
    GSharp,
    A,
    ASharp,
    B,
}

/// A spelled pitch: a letter with up to three sharps or flats.
#[derive(PartialEq, Eq, Structural, Copy, Clone, Debug, Hash)]
pub enum NamedPitch {
    CTripleFlat,
    CDoubleFlat,
    CFlat,
    C,
    CSharp,
    CDoubleSharp,
    CTripleSharp,
    DTripleFlat,
    DDoubleFlat,
    DFlat,
    D,
    DSharp,
    DDoubleSharp,
    DTripleSharp,
    ETripleFlat,
    EDoubleFlat,
    EFlat,
    E,
    ESharp,
    EDoubleSharp,
    ETripleSharp,
    FTripleFlat,
    FDoubleFlat,
    FFlat,
    F,
    FSharp,
    FDoubleSharp,
    FTripleSharp,
    GTripleFlat,
    GDoubleFlat,
    GFlat,
    G,
    GSharp,
    GDoubleSharp,
    GTripleSharp,
    ATripleFlat,
    ADoubleFlat,
    AFlat,
    A,
    ASharp,
    ADoubleSharp,
    ATripleSharp,
    BTripleFlat,
    BDoubleFlat,
    BFlat,
    B,
    BSharp,
    BDoubleSharp,
    BTripleSharp,
}

/// An octave number, `0` to `15`.
#[derive(PartialEq, Eq, Structural, Copy, Clone, Debug, Hash)]
pub struct Octave {
    /// The octave number.
    pub level: u8,
}

/// Chromatic offset of a spelling from `C`, before octave wrapping
/// (`-3` to `14`).
pub open spec fn np_semitone(np: NamedPitch) -> int {
    match np {
        NamedPitch::CTripleFlat => -3,
        NamedPitch::CDoubleFlat => -2,
        NamedPitch::CFlat => -1,
        NamedPitch::C => 0,
        NamedPitch::CSharp => 1,
        NamedPitch::CDoubleSharp => 2,
        NamedPitch::CTripleSharp => 3,
        NamedPitch::DTripleFlat => -1,
        NamedPitch::DDoubleFlat => 0,
        NamedPitch::DFlat => 1,
        NamedPitch::D => 2,
        NamedPitch::DSharp => 3,
        NamedPitch::DDoubleSharp => 4,
        NamedPitch::DTripleSharp => 5,
        NamedPitch::ETripleFlat => 1,
        NamedPitch::EDoubleFlat => 2,
        NamedPitch::EFlat => 3,
        NamedPitch::E => 4,
        NamedPitch::ESharp => 5,
        NamedPitch::EDoubleSharp => 6,
        NamedPitch::ETripleSharp => 7,
        NamedPitch::FTripleFlat => 2,
        NamedPitch::FDoubleFlat => 3,
        NamedPitch::FFlat => 4,
        NamedPitch::F => 5,
        NamedPitch::FSharp => 6,
        NamedPitch::FDoubleSharp => 7,
        NamedPitch::FTripleSharp => 8,
        NamedPitch::GTripleFlat => 4,
        NamedPitch::GDoubleFlat => 5,
        NamedPitch::GFlat => 6,
        NamedPitch::G => 7,
        NamedPitch::GSharp => 8,
        NamedPitch::GDoubleSharp => 9,
        NamedPitch::GTripleSharp => 10,
        NamedPitch::ATripleFlat => 6,
        NamedPitch::ADoubleFlat => 7,
        NamedPitch::AFlat => 8,
        NamedPitch::A => 9,
        NamedPitch::ASharp => 10,
        NamedPitch::ADoubleSharp => 11,
        NamedPitch::ATripleSharp => 12,
        NamedPitch::BTripleFlat => 8,
        NamedPitch::BDoubleFlat => 9,
        NamedPitch::BFlat => 10,
        NamedPitch::B => 11,
        NamedPitch::BSharp => 12,
        NamedPitch::BDoubleSharp => 13,
        NamedPitch::BTripleSharp => 14,
    }
}

/// The pitch class at chromatic index `i` (taken modulo twelve).
pub open spec fn pitch_from_index(i: int) -> Pitch {
    if i == 0 {
        Pitch::C
    } else if i == 1 {
        Pitch::CSharp
    } else if i == 2 {
        Pitch::D
    } else if i == 3 {
        Pitch::DSharp
    } else if i == 4 {
        Pitch::E
    } else if i == 5 {
        Pitch::F
    } else if i == 6 {
        Pitch::FSharp
    } else if i == 7 {
        Pitch::G
    } else if i == 8 {
        Pitch::GSharp
    } else if i == 9 {
        Pitch::A
    } else if i == 10 {
        Pitch::ASharp
    } else {
        Pitch::B
    }
}

/// The pitch class a spelling names.
pub open spec fn pitch_of(np: NamedPitch) -> Pitch {
    pitch_from_index(np_semitone(np) % 12)
}

/// How a spelling shifts the octave: `+1` past `B`, `-1` under `C`.
pub open spec fn octave_carry(np: NamedPitch) -> int {
    if np_semitone(np) >= 12 {
        1
    } else if np_semitone(np) < 0 {
        -1
    } else {
        0
    }
}

/// Octave-zero base frequency of a pitch class, in millihertz.
pub open spec fn pitch_base_millihertz(p: Pitch) -> int {
    match p {
        Pitch::C => 16352,
        Pitch::CSharp => 17324,
        Pitch::D => 18354,
        Pitch::DSharp => 19445,
        Pitch::E => 20602,
        Pitch::F => 21827,
        Pitch::FSharp => 23125,
        Pitch::G => 24500,
        Pitch::GSharp => 25957,
        Pitch::A => 27500,
        Pitch::ASharp => 29135,
        Pitch::B => 30868,
    }
}

/// Two to the `k`-th power.
pub open spec fn pow2_int(k: nat) -> int
    decreases k,
{
    if k == 0 {
        1
    } else {
        2 * pow2_int((k - 1) as nat)
    }
}

/// The frequency of spelling `np` at octave `oct`, in millihertz.
pub open spec fn note_frequency_millihertz(np: NamedPitch, oct: int) -> int {
    pitch_base_millihertz(pitch_of(np)) * pow2_int((oct + octave_carry(np)) as nat)
}

/// Powers of two never shrink below one.
pub proof fn lemma_pow2_int_pos(k: nat)
    ensures
        pow2_int(k) >= 1,
    decreases k,
{
    if k > 0 {
        lemma_pow2_int_pos((k - 1) as nat);
    }
}

/// Powers of two grow with the exponent.
pub proof fn lemma_pow2_int_mono(k: nat, m: nat)
    requires
        k <= m,
    ensures
        pow2_int(k) <= pow2_int(m),
    decreases m,
{
    if k < m {
        lemma_pow2_int_mono(k, (m - 1) as nat);
        lemma_pow2_int_pos((m - 1) as nat);
    }
}

impl NamedPitch {
    /// Chromatic offset of this spelling from `C`, before octave wrapping.
    pub fn semitone(&self) -> (s: i8)
        ensures
            s as int == np_semitone(*self),
    {
        match *self {
            NamedPitch::CTripleFlat => -3,
            NamedPitch::CDoubleFlat => -2,
            NamedPitch::CFlat => -1,
            NamedPitch::C => 0,
            NamedPitch::CSharp => 1,
            NamedPitch::CDoubleSharp => 2,
            NamedPitch::CTripleSharp => 3,
            NamedPitch::DTripleFlat => -1,
            NamedPitch::DDoubleFlat => 0,
            NamedPitch::DFlat => 1,
            NamedPitch::D => 2,
            NamedPitch::DSharp => 3,
            NamedPitch::DDoubleSharp => 4,
            NamedPitch::DTripleSharp => 5,
            NamedPitch::ETripleFlat => 1,
            NamedPitch::EDoubleFlat => 2,
            NamedPitch::EFlat => 3,
            NamedPitch::E => 4,
            NamedPitch::ESharp => 5,
            NamedPitch::EDoubleSharp => 6,
            NamedPitch::ETripleSharp => 7,
            NamedPitch::FTripleFlat => 2,
            NamedPitch::FDoubleFlat => 3,
            NamedPitch::FFlat => 4,
            NamedPitch::F => 5,
            NamedPitch::FSharp => 6,
            NamedPitch::FDoubleSharp => 7,
            NamedPitch::FTripleSharp => 8,
            NamedPitch::GTripleFlat => 4,
            NamedPitch::GDoubleFlat => 5,
            NamedPitch::GFlat => 6,
            NamedPitch::G => 7,
            NamedPitch::GSharp => 8,
            NamedPitch::GDoubleSharp => 9,
            NamedPitch::GTripleSharp => 10,
            NamedPitch::ATripleFlat => 6,
            NamedPitch::ADoubleFlat => 7,
            NamedPitch::AFlat => 8,
            NamedPitch::A => 9,
            NamedPitch::ASharp => 10,
            NamedPitch::ADoubleSharp => 11,
            NamedPitch::ATripleSharp => 12,
            NamedPitch::BTripleFlat => 8,
            NamedPitch::BDoubleFlat => 9,
            NamedPitch::BFlat => 10,
            NamedPitch::B => 11,
            NamedPitch::BSharp => 12,
            NamedPitch::BDoubleSharp => 13,
            NamedPitch::BTripleSharp => 14,
        }
    }

    /// The pitch class this spelling names.
    pub fn pitch(&self) -> (p: Pitch)
        ensures
            p == pitch_of(*self),
    {
        let s = self.semitone();
        let idx: i8 = if s < 0 {
            s + 12
        } else if s >= 12 {
            s - 12
        } else {
            s
        };
        match idx {
            0 => Pitch::C,
            1 => Pitch::CSharp,
            2 => Pitch::D,
            3 => Pitch::DSharp,
            4 => Pitch::E,
            5 => Pitch::F,
            6 => Pitch::FSharp,
            7 => Pitch::G,
            8 => Pitch::GSharp,
            9 => Pitch::A,
            10 => Pitch::ASharp,
            _ => Pitch::B,
        }
    }
}

impl Pitch {
    /// Octave-zero base frequency of this pitch class, in millihertz.
    pub fn base_frequency_millihertz(&self) -> (f: u64)
        ensures
            f as int == pitch_base_millihertz(*self),
            f <= 30868,
    {
        match *self {
            Pitch::C => 16352,
            Pitch::CSharp => 17324,
            Pitch::D => 18354,
            Pitch::DSharp => 19445,
            Pitch::E => 20602,
            Pitch::F => 21827,
            Pitch::FSharp => 23125,
            Pitch::G => 24500,
            Pitch::GSharp => 25957,
            Pitch::A => 27500,
            Pitch::ASharp => 29135,
            Pitch::B => 30868,
        }
    }
}

/// A pitch spelling with an octave.
#[derive(PartialEq, Eq, Structural, Copy, Clone, Debug, Hash)]
pub struct Note {
    pitch: NamedPitch,
    octave: Octave,
}

impl Note {
    /// The spelling this note carries.
    pub closed spec fn named_pitch_spec(&self) -> NamedPitch {
        self.pitch
    }

    /// The octave this note carries.
    pub closed spec fn octave_spec(&self) -> Octave {
        self.octave
    }

    /// Build a note from a spelling and an octave.
    pub fn new(pitch: NamedPitch, octave: Octave) -> (n: Note)
        ensures
            n.named_pitch_spec() == pitch,
            n.octave_spec() == octave,
    {
        Note { pitch, octave }
    }

    /// The octave of the note.
    pub fn octave(&self) -> (o: Octave)
        ensures
            o == self.octave_spec(),
    {
        self.octave
    }

    /// The pitch class of the note.
    pub fn pitch(&self) -> (p: Pitch)
        ensures
            p == pitch_of(self.named_pitch_spec()),
    {
        self.pitch.pitch()
    }

    /// The frequency of the note in millihertz: the pitch class's base
    /// frequency doubled once per octave, the octave corrected when the
    /// spelling wraps past `B` or under `C`.
    pub fn frequency(&self) -> (f: u64)
        requires
            0 <= self.octave_spec().level + octave_carry(self.named_pitch_spec()) <= 15,
        ensures
            f as int == note_frequency_millihertz(
                self.named_pitch_spec(),
                self.octave_spec().level as int,
            ),
    {
        let base = self.pitch.pitch().base_frequency_millihertz();
        let s = self.pitch.semitone();
        let oct: u8 = if s >= 12 {
            self.octave.level + 1
        } else if s < 0 {
            self.octave.level - 1
        } else {
            self.octave.level
        };
        let mut f: u64 = base;
        let mut k: u8 = 0;
        while k < oct
            invariant
                k <= oct,
                oct <= 15,
                base <= 30868,
                f as int == base as int * pow2_int(k as nat),
            decreases oct - k,
        {
            proof {
                lemma_pow2_int_mono(k as nat, 14);
                lemma_pow2_int_pos(k as nat);
                assert(pow2_int(14) == 16384) by {
                    reveal_with_fuel(pow2_int, 16);
                }
                let b = base as int;
                let p = pow2_int(k as nat);
                assert(f as int <= 30868 * 16384) by (nonlinear_arith)
                    requires
                        f as int == b * p,
                        0 <= b <= 30868,
                        1 <= p <= 16384,
                ;
                assert(pow2_int((k + 1) as nat) == 2 * p);
                assert(b * (2 * p) == 2 * (b * p)) by (nonlinear_arith);
            }
            f = f * 2;
            k = k + 1;
        }
        proof {
            assert(oct as int == self.octave_spec().level + octave_carry(
                self.named_pitch_spec(),
            ));
        }
        f
    }
}

} // verus!
