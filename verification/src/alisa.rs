//! The data model of voice-assistant requests, as far as the library needs
//! to name it.  Decoding such requests from the wire is left to the callers;
//! only the input-type vocabulary lives here.

use vstd::prelude::*;

verus! {

/// How a voice-assistant request was produced.
#[derive(Debug, Clone, PartialEq, Eq)]
pub enum InputType {
    /// Voice input.
    SimpleUtterance,
    /// Press of a button.
    ButtonPressed,
    /// Audio player start event on smart speakers.
    PlaybackStarted,
    /// Playback end event.
    PlaybackFinished,
    /// An event about the imminent completion of the playback of the current track.
    PlaybackNearlyFinished,
    /// Playback stop.
    PlaybackStopped,
    /// Playback error.
    PlaybackFailed,
    /// Request for confirmation of payment in the skill.
    PurchaseConformation,
    /// Request to read data for the show.
    ShowPull,
}

} // verus!
