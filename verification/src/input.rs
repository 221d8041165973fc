//! The events that the window hands to the engine.

use vstd::prelude::*;

verus! {

/// The keys that mean something to the engine; every other key is `Other`.
#[derive(Copy, Clone, Debug, PartialEq, Eq, Structural)]
pub enum Key {
    Escape,
    Q,
    Space,
    E,
    Other,
}

/// A pointer button; only the left one paints.
#[derive(Copy, Clone, Debug, PartialEq, Eq, Structural)]
pub enum MouseButton {
    Left,
    Other,
}

/// One input event. Pointer positions are in pixels.
#[derive(Copy, Clone, Debug, PartialEq, Eq, Structural)]
pub enum Event {
    /// The window was asked to close.
    Quit,
    /// A key went down; `repeat` is set when the key is being held.
    KeyDown { key: Key, repeat: bool },
    MouseButtonDown { x: i32, y: i32, button: MouseButton },
    MouseMotion { x: i32, y: i32 },
    MouseButtonUp { button: MouseButton },
    /// Anything else.
    Other,
}

/// Whether an event ends the loop: a request to close the window, or escape
/// or Q going down.
pub open spec fn is_quit(event: Event) -> bool {
    match event {
        Event::Quit => true,
        Event::KeyDown { key, .. } => key == Key::Escape || key == Key::Q,
        _ => false,
    }
}

impl Event {
    /// Whether this event ends the loop.
    pub fn quits(&self) -> (quit: bool)
        ensures
            quit == is_quit(*self),
    {
        match self {
            Event::Quit => true,
            Event::KeyDown { key: Key::Escape, .. } => true,
            Event::KeyDown { key: Key::Q, .. } => true,
            _ => false,
        }
    }
}

} // verus!
