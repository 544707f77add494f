//! One managed window: identity, geometry, and a "needs
//! reconfiguration" flag.
//!
//! The window identity is the display server's 32-bit resource
//! identifier; the library never interprets it.  Positions are local to
//! the owning monitor's viewport and are translated to absolute screen
//! coordinates only when configuration commands are emitted.

use vstd::prelude::*;

verus! {

/// One managed window.  `reconfigure` is raised by every geometry
/// change and lowered once the new geometry has been turned into a
/// configuration command for the display server.
#[derive(Clone, Copy, Debug)]
pub struct Client {
    /// Display-server resource identifier of the window.
    pub window: u32,
    /// Horizontal position, local to the owning monitor's viewport.
    pub pos_x: i32,
    /// Vertical position, local to the owning monitor's viewport.
    pub pos_y: i32,
    pub height: u16,
    pub width: u16,
    /// True while a geometry change has not yet been pushed out.
    pub reconfigure: bool,
}

impl Client {
    /// The positions a relayout can produce: inside the viewport, so
    /// adding a monitor origin of at most 16 bits can never overflow
    /// an `i32`.
    pub open spec fn bounded(self) -> bool {
        0 <= self.pos_x <= u16::MAX && 0 <= self.pos_y <= u16::MAX
    }

    pub fn new(window: u32, pos_x: i32, pos_y: i32, height: u16, width: u16) -> (c: Client)
        ensures
            c == (Client { window, pos_x, pos_y, height, width, reconfigure: false }),
    {
        Client { pos_x, pos_y, height, width, window, reconfigure: false }
    }

    /// Overwrite the position and raise the reconfiguration flag.
    pub fn set_pos(&mut self, pos_x: i32, pos_y: i32)
        ensures
            *final(self) == (Client { pos_x, pos_y, reconfigure: true, ..*old(self) }),
    {
        self.pos_x = pos_x;
        self.pos_y = pos_y;
        self.reconfigure = true;
    }

    /// Overwrite the size and raise the reconfiguration flag.
    pub fn set_size(&mut self, width: u16, height: u16)
        ensures
            *final(self) == (Client { width, height, reconfigure: true, ..*old(self) }),
    {
        self.width = width;
        self.height = height;
        self.reconfigure = true;
    }
}

} // verus!
