use vstd::prelude::*;
use crate::shell::context::Size;

verus! {

/// The window events the shell reacts to.
#[derive(Copy, Clone, Debug, PartialEq, Eq, Structural)]
pub enum WindowInput {
    CloseRequested,
    RedrawRequested,
    Resized(Size),
    Other,
}

/// What the shell does with a window event.
#[derive(Copy, Clone, Debug, PartialEq, Eq, Structural)]
pub enum AppAction {
    /// The context is not built yet: the event is ignored with a warning.
    NotReady,
    /// Stop the logger and leave the event loop.
    Exit,
    /// Draw a frame.
    Render,
    /// Take the new size.
    Resize(Size),
    /// Nothing to do.
    Nothing,
}

/// The shell's reaction to a window event, given whether its context is built.
pub fn on_window_event(ready: bool, input: WindowInput) -> (r: AppAction)
    ensures
        !ready ==> r == AppAction::NotReady,
        ready ==> r == (match input {
            WindowInput::CloseRequested => AppAction::Exit,
            WindowInput::RedrawRequested => AppAction::Render,
            WindowInput::Resized(size) => AppAction::Resize(size),
            WindowInput::Other => AppAction::Nothing,
        }),
{
    if !ready {
        return AppAction::NotReady;
    }
    match input {
        WindowInput::CloseRequested => AppAction::Exit,
        WindowInput::RedrawRequested => AppAction::Render,
        WindowInput::Resized(size) => AppAction::Resize(size),
        WindowInput::Other => AppAction::Nothing,
    }
}

} // verus!
