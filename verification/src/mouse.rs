use vstd::prelude::*;

verus! {

/// Where the pointer is and which buttons are down.
#[derive(Debug, Clone, Copy, PartialEq, Eq, Structural)]
pub struct MouseState {
    pub x: usize,
    pub y: usize,
    pub left_button: bool,
    pub right_button: bool,
}

impl MouseState {
    /// The pointer at the origin with no button down.
    pub fn new() -> (m: Self)
        ensures
            m == (MouseState { x: 0, y: 0, left_button: false, right_button: false }),
    {
        Self { x: 0, y: 0, left_button: false, right_button: false }
    }
}

/// Starts the mouse. There is no pointer device driver, so this always gives
/// the initial state.
pub fn init_mouse() -> (m: Option<MouseState>)
    ensures
        m == Some(MouseState { x: 0, y: 0, left_button: false, right_button: false }),
{
    Some(MouseState::new())
}

} // verus!
