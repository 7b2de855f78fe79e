//! Verified structure of a console-style audio effect.
//!
//! The effect colours a signal by adding to it a weighted sum over the last
//! few samples it has shaped. This library holds what in that is structure:
//! the per-channel sample history, the walk over the taps with the polarity
//! of each, the order of the stages within a frame, and the channel layouts
//! the effect accepts.
//!
//! Samples are carried as an opaque `Copy` type and the arithmetic on them is
//! handed in as functions. What is proved is where every sample is stored, in
//! which order it is read back, with which sign it enters the tap sum, and
//! which value reaches which stage; and that, for arithmetic that computes a
//! function, the effect computes the function its stages compose to.

pub mod desk;
pub mod history;
pub mod layout;
pub mod taps;
