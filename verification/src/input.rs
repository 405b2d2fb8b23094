//! The state of the mouse, as the window last reported it.
use vstd::prelude::*;

verus! {

#[derive(Clone, Copy, Debug)]
pub struct Input {
    pub mouse_x: i32,
    pub mouse_y: i32,
    pub mouse_down: bool,
}

impl Input {
    /// The mouse at the origin, no button pressed.
    pub fn new() -> (i: Input)
        ensures
            i.mouse_x == 0,
            i.mouse_y == 0,
            !i.mouse_down,
    {
        Input { mouse_x: 0, mouse_y: 0, mouse_down: false }
    }

    /// The horizontal position of the mouse.
    pub fn mouse_x(&self) -> (x: i32)
        ensures
            x == self.mouse_x,
    {
        self.mouse_x
    }

    /// The vertical position of the mouse.
    pub fn mouse_y(&self) -> (y: i32)
        ensures
            y == self.mouse_y,
    {
        self.mouse_y
    }

    /// Whether a mouse button is pressed.
    pub fn mouse_down(&self) -> (down: bool)
        ensures
            down == self.mouse_down,
    {
        self.mouse_down
    }

    /// Records that a button went down or up.
    pub fn handle_mouse_button(&mut self, is_down: bool)
        ensures
            final(self).mouse_down == is_down,
            final(self).mouse_x == old(self).mouse_x,
            final(self).mouse_y == old(self).mouse_y,
    {
        self.mouse_down = is_down;
    }

    /// Records where the mouse has moved.
    pub fn handle_mouse_move(&mut self, x: i32, y: i32)
        ensures
            final(self).mouse_x == x,
            final(self).mouse_y == y,
            final(self).mouse_down == old(self).mouse_down,
    {
        self.mouse_x = x;
        self.mouse_y = y;
    }
}

impl Default for Input {
    /// The mouse at the origin, no button pressed.
    fn default() -> (i: Input)
        ensures
            i == (Input { mouse_x: 0, mouse_y: 0, mouse_down: false }),
    {
        Input { mouse_x: 0, mouse_y: 0, mouse_down: false }
    }
}

} // verus!
