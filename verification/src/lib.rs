//! Timing and judgement core of a four-lane rhythm game.
//!
//! The library ingests a chart (a line-oriented list of timestamped notes),
//! keeps a play clock with an initial countdown and a pause toggle, decides
//! when queued notes become visible (spawn-ahead), judges key presses and
//! releases against timing windows, and aggregates score, combo and accuracy.
//! Rendering, audio playback and raw input belong to a presentation layer
//! that drives [`session::GameSession::tick`] once per frame.

pub mod state;

pub mod note;

pub mod clock;

pub mod score;

pub mod judge;

pub mod scheduler;

pub mod parse;

pub mod chart;

pub mod session;

pub mod track;

pub mod indicator;
