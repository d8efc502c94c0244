use vstd::prelude::*;
use crate::models::{FocusBehaviour, Mode};

verus! {

/// The wait source the event loop serves next. Exactly one branch fires per
/// iteration.
#[derive(Clone, Copy, Debug, PartialEq, Eq, Structural)]
pub enum LoopBranch {
    /// Buffered events exist: dispatch them, preferred over any waiting.
    DrainEvents,
    /// The display protocol has data: pull its events into the buffer.
    DisplayWait,
    /// The focus re-verification timer, armed only under Sloppy focus.
    FocusTimer,
    /// A control-channel command is readable.
    Command,
}

/// Arbitrate the event loop's wait sources: a non-empty event buffer always
/// drains first; display readability comes next; the 100 ms focus timer
/// fires only under Sloppy focus; the control channel is served when
/// nothing else is ready.
pub fn next_wakeup(
    buffer_empty: bool,
    behaviour: FocusBehaviour,
    display_ready: bool,
    timer_fired: bool,
    command_ready: bool,
) -> (r: LoopBranch)
    ensures
        !buffer_empty ==> r == LoopBranch::DrainEvents,
        buffer_empty && display_ready ==> r == LoopBranch::DisplayWait,
        buffer_empty && !display_ready && timer_fired && behaviour == FocusBehaviour::Sloppy
            ==> r == LoopBranch::FocusTimer,
        buffer_empty && !display_ready && !(timer_fired && behaviour
            == FocusBehaviour::Sloppy) && command_ready ==> r == LoopBranch::Command,
        buffer_empty && !display_ready && !(timer_fired && behaviour
            == FocusBehaviour::Sloppy) && !command_ready ==> r == LoopBranch::DisplayWait,
{
    if !buffer_empty {
        LoopBranch::DrainEvents
    } else if display_ready {
        LoopBranch::DisplayWait
    } else if timer_fired && matches!(behaviour, FocusBehaviour::Sloppy) {
        LoopBranch::FocusTimer
    } else if command_ready {
        LoopBranch::Command
    } else {
        LoopBranch::DisplayWait
    }
}

/// Which windows a redraw must push: everything in Normal mode, only the
/// manipulated window while one is being moved or resized.
pub fn redraw_scope(mode: Mode) -> (r: Option<u64>)
    ensures
        mode == Mode::Normal ==> r is None,
        forall|h: u64| mode == Mode::ResizingWindow(h) ==> r == Some(h),
        forall|h: u64| mode == Mode::MovingWindow(h) ==> r == Some(h),
{
    match mode {
        Mode::Normal => None,
        Mode::ResizingWindow(h) => Some(h),
        Mode::MovingWindow(h) => Some(h),
    }
}

} // verus!
