//! Input and window events as the engine dispatches them.
use vstd::prelude::*;

verus! {

/// Key code of the escape key.
pub const KEY_ESCAPE: i32 = 256;
/// Key code of the right arrow key.
pub const KEY_RIGHT: i32 = 262;
/// Key code of the left arrow key.
pub const KEY_LEFT: i32 = 263;
/// Key code of the down arrow key.
pub const KEY_DOWN: i32 = 264;
/// Key code of the up arrow key.
pub const KEY_UP: i32 = 265;

/// An input or window event. Pointer positions and scroll offsets are
/// fractional and stay with the caller, which applies them to the camera.
#[derive(Clone, Copy, Debug, PartialEq, Eq, Structural)]
pub enum Event {
    /// The cursor moved.
    CursorPos,
    /// The wheel or touchpad scrolled.
    Scroll,
    /// A key was pressed (key code).
    KeyPressed(i32),
    /// A key was released (key code).
    KeyReleased(i32),
    /// A mouse button was pressed (button, modifiers).
    ButtonPressed(i32, i32),
    /// A mouse button was released (button, modifiers).
    ButtonReleased(i32, i32),
    /// The framebuffer was resized to the given width and height in pixels.
    FramebufferSize(i32, i32),
}

} // verus!
