//! The events the dispatch core consumes and the protocol requests it asks
//! the surrounding process to issue.
//!
//! Both sides of the loop are plain values: the process around the library
//! turns the transport's notifications into `WmEvent`s, hands them to the
//! dispatcher, and performs the `WmAction`s that come back.

use vstd::prelude::*;

verus! {

/// One notification from the protocol server, reduced to the fields the
/// core reads. Every event carries its 16-bit wire sequence number, which
/// the dispatcher holds against the suppression queue.
#[derive(Clone, Copy, Debug, PartialEq, Eq, Structural)]
pub enum WmEvent {
    /// A grabbed key went down: its physical code and the modifier mask
    /// held at that moment.
    KeyPress { sequence: u16, detail: u8, state: u16 },
    /// A key came back up.
    KeyRelease { sequence: u16, detail: u8 },
    /// A pointer button went down over `event`, at window-local
    /// coordinates.
    ButtonPress { sequence: u16, detail: u8, event: u32, event_x: i16, event_y: i16 },
    /// A pointer button came back up.
    ButtonRelease { sequence: u16, detail: u8 },
    /// The pointer moved; coordinates are relative to the root.
    MotionNotify { sequence: u16, root_x: i16, root_y: i16 },
    /// The pointer entered `event`.
    EnterNotify { sequence: u16, event: u32 },
    /// The pointer left `event`.
    LeaveNotify { sequence: u16, event: u32 },
    /// `window` was unmapped.
    UnmapNotify { sequence: u16, window: u32 },
    /// A client asked for new geometry for `window` before it is managed.
    ConfigureRequest {
        sequence: u16,
        window: u32,
        x: i16,
        y: i16,
        width: u16,
        height: u16,
        border_width: u16,
    },
    /// A client asked for `window` to be mapped.
    MapRequest { sequence: u16, window: u32 },
    /// Part of `window` needs redrawing.
    Expose { sequence: u16, window: u32 },
}

impl WmEvent {
    /// The wire sequence number the event carries.
    pub open spec fn spec_sequence(self) -> u16 {
        match self {
            WmEvent::KeyPress { sequence, .. } => sequence,
            WmEvent::KeyRelease { sequence, .. } => sequence,
            WmEvent::ButtonPress { sequence, .. } => sequence,
            WmEvent::ButtonRelease { sequence, .. } => sequence,
            WmEvent::MotionNotify { sequence, .. } => sequence,
            WmEvent::EnterNotify { sequence, .. } => sequence,
            WmEvent::LeaveNotify { sequence, .. } => sequence,
            WmEvent::UnmapNotify { sequence, .. } => sequence,
            WmEvent::ConfigureRequest { sequence, .. } => sequence,
            WmEvent::MapRequest { sequence, .. } => sequence,
            WmEvent::Expose { sequence, .. } => sequence,
        }
    }

    /// Read the wire sequence number.
    pub fn sequence(&self) -> (r: u16)
        ensures
            r == self.spec_sequence(),
    {
        match *self {
            WmEvent::KeyPress { sequence, .. } => sequence,
            WmEvent::KeyRelease { sequence, .. } => sequence,
            WmEvent::ButtonPress { sequence, .. } => sequence,
            WmEvent::ButtonRelease { sequence, .. } => sequence,
            WmEvent::MotionNotify { sequence, .. } => sequence,
            WmEvent::EnterNotify { sequence, .. } => sequence,
            WmEvent::LeaveNotify { sequence, .. } => sequence,
            WmEvent::UnmapNotify { sequence, .. } => sequence,
            WmEvent::ConfigureRequest { sequence, .. } => sequence,
            WmEvent::MapRequest { sequence, .. } => sequence,
            WmEvent::Expose { sequence, .. } => sequence,
        }
    }
}

/// One protocol request (or local side effect) the core asks the
/// surrounding process to perform, in order.
#[derive(Clone, Copy, Debug, PartialEq, Eq, Structural)]
pub enum WmAction {
    /// Create the decoration window `frame` at the given root geometry,
    /// selecting the frame event mask.
    CreateFrame { frame: u32, x: i16, y: i16, width: u16, height: u16 },
    /// Grab the server around a reparenting transaction.
    GrabServer,
    /// Release the server grab.
    UngrabServer,
    /// Add `window` to the server's save-set.
    AddToSaveSet { window: u32 },
    /// Remove `window` from the server's save-set.
    RemoveFromSaveSet { window: u32 },
    /// Reparent `window` into its frame at local origin. The reparent
    /// notification echoes back: the performer must register the request's
    /// sequence number with the suppression queue.
    ReparentIntoFrame { window: u32, frame: u32 },
    /// Reparent `window` back under the root at its last known position.
    ReparentToRoot { window: u32, x: i16, y: i16 },
    /// Map `window`.
    MapWindow { window: u32 },
    /// Destroy `window` (used for frames the core owns).
    DestroyWindow { window: u32 },
    /// Move `window` to the given root position.
    ConfigureMove { window: u32, x: i32, y: i32 },
    /// Grant an unmanaged client's configure request verbatim, with
    /// sibling and stacking hints stripped.
    ConfigurePassthrough {
        window: u32,
        x: i16,
        y: i16,
        width: u16,
        height: u16,
        border_width: u16,
    },
    /// Raise `window` to the top of the stacking order.
    RaiseWindow { window: u32 },
    /// Give input focus to `window`; `0` is the protocol's null focus
    /// target and resets focus to none.
    FocusWindow { window: u32 },
    /// Query `window`'s geometry, allocate a fresh frame id, and hand both
    /// back to `manage_window`.
    ManageWindow { window: u32 },
    /// Grab one key chord on the root, so matching presses are routed here.
    GrabKey { mask: u16, code: u8 },
    /// Run the configured action with this identifier.
    InvokeAction { action: usize },
}

} // verus!
