//! Decisions for the song's audio track: when to start it, and how to follow
//! the pause state. The playback itself belongs to the presentation layer,
//! which performs the returned action each frame.

use vstd::prelude::*;

verus! {

/// What the presentation layer should do with the song track this frame.
#[derive(Debug, Clone, Copy, PartialEq, Eq, Structural)]
pub enum TrackAction {
    /// Leave the track as it is.
    Nothing,
    /// Start playback (the song clock just left zero for the first time).
    StartPlaying,
    /// Pause playback (the clock just froze).
    PauseTrack,
    /// Resume playback (the clock just unfroze).
    ResumeTrack,
}

/// What the track controller remembers between frames.
#[derive(Debug, Clone, Copy, PartialEq, Eq, Structural)]
pub struct MainTrackState {
    /// The track has not started yet.
    pub stopped: bool,
    /// The track is paused.
    pub paused: bool,
}

impl MainTrackState {
    /// Before the song starts: stopped, not paused.
    pub fn new() -> (s: MainTrackState)
        ensures
            s == (MainTrackState { stopped: true, paused: false }),
    {
        MainTrackState { stopped: true, paused: false }
    }

    /// Follow the play clock for one frame: start the track the moment the
    /// song clock moves past zero, then mirror every pause transition,
    /// each exactly once.
    pub fn step(&mut self, elapsed_ms: u64, clock_paused: bool) -> (action: TrackAction)
        ensures
            elapsed_ms == 0 ==> *final(self) == *old(self) && action == TrackAction::Nothing,
            elapsed_ms > 0 && old(self).stopped ==> *final(self) == (MainTrackState {
                stopped: false,
                paused: old(self).paused,
            }) && action == TrackAction::StartPlaying,
            elapsed_ms > 0 && !old(self).stopped && clock_paused && !old(self).paused ==> *final(self) == (MainTrackState { stopped: false, paused: true }) && action
                == TrackAction::PauseTrack,
            elapsed_ms > 0 && !old(self).stopped && !clock_paused && old(self).paused ==> *final(self) == (MainTrackState { stopped: false, paused: false }) && action
                == TrackAction::ResumeTrack,
            elapsed_ms > 0 && !old(self).stopped && clock_paused == old(self).paused ==> *final(self) == *old(self) && action == TrackAction::Nothing,
    {
        if elapsed_ms == 0 {
            TrackAction::Nothing
        } else if self.stopped {
            self.stopped = false;
            TrackAction::StartPlaying
        } else if clock_paused && !self.paused {
            self.paused = true;
            TrackAction::PauseTrack
        } else if !clock_paused && self.paused {
            self.paused = false;
            TrackAction::ResumeTrack
        } else {
            TrackAction::Nothing
        }
    }
}

} // verus!
