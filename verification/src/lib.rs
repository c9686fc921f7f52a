//! Interval chorder: a real-time MIDI event transform that expands every
//! note-begin and note-end event into a three-note major triad (root, major
//! third, perfect fifth) and forwards every other event unchanged.

pub mod chorder;
pub mod event;
