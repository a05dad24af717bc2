//! A streaming signal-transformation core for audio work on small machines.
//!
//! Everything here runs on fixed-point integer samples (see [`num`]): a
//! fixed-capacity [`ring::CircularBuffer`], a pull-based [`signal::Signal`]
//! abstraction, the [`interp::Interpolator`] kernels (floor, linear and
//! table-driven windowed sinc) behind the rate [`convert::Converter`], and an
//! envelope pipeline of windowed [`detect`] statistics smoothed by an
//! [`envelope::EnvelopeFollower`]. Every capacity is fixed at construction
//! and no component's state ever grows afterwards.
//!
//! Around the streaming core sit the small theory types ([`note`]) and the
//! oscillator selector ([`osc`]) that voices are driven by; waveform
//! synthesis itself is floating-point work and stays with the surrounding
//! application.

pub mod convert;
pub mod detect;
pub mod envelope;
pub mod frame;
pub mod interp;
pub mod note;
pub mod num;
pub mod osc;
pub mod ring;
pub mod signal;
pub mod sinc;
