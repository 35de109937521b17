//! The window's state as the engine reads it: size, focus, an edge-triggered
//! resize flag with read-and-clear semantics, and a close request.  The
//! platform layer decodes its native events into `WindowEvent`s and feeds
//! them here.

use vstd::prelude::*;

verus! {

/// A decoded native window event.
#[derive(Clone, Copy, PartialEq, Eq, Structural, Debug)]
pub enum WindowEvent {
    /// The window was configured to the given size (which may be unchanged).
    Configure { width: u32, height: u32 },
    FocusIn,
    FocusOut,
    CloseRequested,
    /// Anything the engine does not react to.
    Other,
}

/// The window state the engine polls.
pub struct Window {
    pub width: u32,
    pub height: u32,
    pub resized: bool,
    pub focused: bool,
    pub closed: bool,
}

impl Window {
    /// A freshly created window: its initial size, unfocused, no resize
    /// seen, not closed.
    pub fn new(width: u32, height: u32) -> (w: Window)
        ensures
            w.width == width,
            w.height == height,
            !w.resized,
            !w.focused,
            !w.closed,
    {
        Window { width, height, resized: false, focused: false, closed: false }
    }

    /// Applies one decoded event.  A configure to a different size records
    /// the new size and raises the resize flag; one to the same size changes
    /// nothing.  Focus events track focus; a close request latches `closed`.
    pub fn apply_event(&mut self, ev: WindowEvent)
        ensures
            *final(self) == event_applied(*old(self), ev),
    {
        match ev {
            WindowEvent::Configure { width, height } => {
                if width != self.width || height != self.height {
                    self.resized = true;
                    self.width = width;
                    self.height = height;
                }
            },
            WindowEvent::FocusIn => {
                self.focused = true;
            },
            WindowEvent::FocusOut => {
                self.focused = false;
            },
            WindowEvent::CloseRequested => {
                self.closed = true;
            },
            WindowEvent::Other => {},
        }
    }

    /// Whether the engine loop should run another tick.
    pub fn should_continue(&self) -> (r: bool)
        ensures
            r == !self.closed,
    {
        !self.closed
    }

    /// The current window size.
    pub fn get_size(&self) -> (r: (u32, u32))
        ensures
            r.0 == self.width,
            r.1 == self.height,
    {
        (self.width, self.height)
    }

    /// Reads and clears the edge-triggered resize flag: true exactly once
    /// per recorded resize.
    pub fn resized(&mut self) -> (r: bool)
        ensures
            r == old(self).resized,
            !final(self).resized,
            final(self).width == old(self).width,
            final(self).height == old(self).height,
            final(self).focused == old(self).focused,
            final(self).closed == old(self).closed,
    {
        let r = self.resized;
        self.resized = false;
        r
    }

    /// Whether the window has focus.
    pub fn focused(&self) -> (r: bool)
        ensures
            r == self.focused,
    {
        self.focused
    }
}

/// Exactly how one event changes the window state.
pub open spec fn event_applied(w: Window, ev: WindowEvent) -> Window {
    match ev {
        WindowEvent::Configure { width, height } => {
            if width != w.width || height != w.height {
                Window { width, height, resized: true, ..w }
            } else {
                w
            }
        },
        WindowEvent::FocusIn => Window { focused: true, ..w },
        WindowEvent::FocusOut => Window { focused: false, ..w },
        WindowEvent::CloseRequested => Window { closed: true, ..w },
        WindowEvent::Other => w,
    }
}

} // verus!
