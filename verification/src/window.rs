use vstd::prelude::*;

verus! {

/// What a window event means for the application's lifetime.
#[derive(Debug, Clone, Copy, PartialEq, Eq, Structural)]
pub enum WindowSignal {
    /// The window's close button was used.
    CloseRequested,
    /// A key changed state: whether it went down, and whether it is Escape.
    Key { pressed: bool, escape: bool },
    /// Any other event.
    Other,
}

/// The application quits when its window is closed or Escape is pressed.
pub open spec fn should_exit_spec(signal: WindowSignal) -> bool {
    match signal {
        WindowSignal::CloseRequested => true,
        WindowSignal::Key { pressed, escape } => pressed && escape,
        WindowSignal::Other => false,
    }
}

pub fn should_exit(signal: WindowSignal) -> (exit: bool)
    ensures
        exit == should_exit_spec(signal),
{
    match signal {
        WindowSignal::CloseRequested => true,
        WindowSignal::Key { pressed, escape } => pressed && escape,
        WindowSignal::Other => false,
    }
}

} // verus!
