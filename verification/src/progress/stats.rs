//! The decisions of the progress display.
//!
//! The display receives percentages from the fetch loop. A value of 100 or
//! more completes the run. After the loop has ended it sends a last 0, which
//! tells a display that is still waiting to stop; such a 0 is not shown, so
//! the indicator never falls back to nothing.

use vstd::prelude::*;

verus! {

/// What the display does with a value it has received.
#[derive(Debug, PartialEq, Eq, Clone, Copy, Structural)]
pub enum DisplayStep {
    /// Show the percentage and wait for the next value.
    Show(u64),
    /// Show the percentage and stop: the run is complete.
    Finish(u64),
    /// Stop without showing anything: the fetch loop has ended.
    Stop,
}

/// The state of the display: the percentage that it shows.
#[derive(Debug, PartialEq, Eq, Clone, Copy, Structural)]
pub struct Progress {
    pub position: u64,
}

/// What a display that shows `position` does with `value`. A value of 100 or
/// more finishes. A 0 that comes after something has been shown is the sign
/// to stop. Every other value is shown.
pub open spec fn display_of(position: u64, value: u64) -> DisplayStep {
    if value >= 100 {
        DisplayStep::Finish(value)
    } else if value == 0 && position > 0 {
        DisplayStep::Stop
    } else {
        DisplayStep::Show(value)
    }
}

/// What the display shows after it has acted.
pub open spec fn position_after(position: u64, action: DisplayStep) -> u64 {
    match action {
        DisplayStep::Show(value) => value,
        DisplayStep::Finish(value) => value,
        DisplayStep::Stop => position,
    }
}

impl Progress {
    /// A display that shows nothing yet.
    pub fn new() -> (progress: Progress)
        ensures
            progress.position == 0,
    {
        Progress { position: 0 }
    }

    /// Takes a value from the fetch loop and says what to do with it.
    pub fn receive(&mut self, value: u64) -> (action: DisplayStep)
        ensures
            action == display_of(old(self).position, value),
            final(self).position == position_after(old(self).position, action),
    {
        if value >= 100 {
            self.position = value;
            DisplayStep::Finish(value)
        } else if value == 0 && self.position > 0 {
            DisplayStep::Stop
        } else {
            self.position = value;
            DisplayStep::Show(value)
        }
    }
}

/// Whether an action ends the display's loop.
pub fn is_last(action: DisplayStep) -> (last: bool)
    ensures
        last == !(action is Show),
{
    match action {
        DisplayStep::Show(_) => false,
        _ => true,
    }
}

/// The shutdown value ends the loop of a display that has shown progress,
/// and so does every value of 100 or more, whatever has been shown; and
/// neither makes the display show less than before.
pub proof fn lemma_last_message_ends_the_loop(position: u64, value: u64)
    requires
        value >= 100 || (value == 0 && position > 0),
    ensures
        !(display_of(position, value) is Show),
        position <= 100 ==> position_after(position, display_of(position, value)) >= position,
{
}

} // verus!
