//! The floating layout strategy: manage/unmanage with frame windows,
//! pointer drags, focus-follows-pointer, and pass-through configuration for
//! unmanaged windows.

use vstd::prelude::*;

use crate::events::WmAction;
use crate::layout::{
    find_spec, is_window_id_spec, lemma_find_spec_none, registry_ok, DragState, DragType,
    Geometry, WindowState, WmLayoutKind, WmState,
};

verus! {

/// Why a window could not be managed: one of the two ids already routes to
/// a record of the registry (or the frame equals the window), so managing
/// it would break the registry's uniqueness invariant.
#[derive(Clone, Copy, Debug, PartialEq, Eq, Structural)]
pub enum ManageError {
    IdInUse,
}

/// Whether managing `window` under the fresh frame id `frame` keeps the
/// registry's ids unique.
pub open spec fn can_manage(ws: Seq<WindowState>, window: u32, frame: u32) -> bool {
    &&& window != frame
    &&& find_spec(ws, window) is None
    &&& find_spec(ws, frame) is None
}

/// The requests that manage one window: create its frame at the window's
/// geometry, and inside a server grab put the window in the save-set,
/// reparent it into the frame at local origin, and map both.
pub open spec fn manage_actions(window: u32, frame: u32, g: Geometry) -> Seq<WmAction> {
    seq![
        WmAction::CreateFrame { frame, x: g.x, y: g.y, width: g.width, height: g.height },
        WmAction::GrabServer,
        WmAction::AddToSaveSet { window },
        WmAction::ReparentIntoFrame { window, frame },
        WmAction::MapWindow { window },
        WmAction::MapWindow { window: frame },
        WmAction::UngrabServer,
    ]
}

/// The requests that unmanage one record: forget its save-set entry, hand
/// the window back to the root at its last known position, and destroy the
/// frame.
pub open spec fn unmanage_actions(root: u32, s: WindowState) -> Seq<WmAction> {
    seq![
        WmAction::RemoveFromSaveSet { window: s.window },
        WmAction::ReparentToRoot { window: s.window, x: s.x, y: s.y },
        WmAction::DestroyWindow { window: s.frame_window },
    ]
}

/// The index of the first record whose client window is `window`, or the
/// registry's length when none is.
pub open spec fn managed_index(ws: Seq<WindowState>, window: u32) -> int
    decreases ws.len(),
{
    if ws.len() == 0 {
        0
    } else if ws[0].window == window {
        0
    } else {
        1 + managed_index(ws.drop_first(), window)
    }
}

/// `managed_index` lies within the registry, nothing before it matches, and
/// the record at it (when there is one) does.
pub proof fn lemma_managed_index(ws: Seq<WindowState>, window: u32)
    ensures
        0 <= managed_index(ws, window) <= ws.len(),
        managed_index(ws, window) < ws.len() ==> ws[managed_index(ws, window)].window == window,
        forall|k: int| 0 <= k < managed_index(ws, window) ==> ws[k].window != window,
    decreases ws.len(),
{
    if ws.len() == 0 {
    } else if ws[0].window == window {
    } else {
        lemma_managed_index(ws.drop_first(), window);
        assert forall|k: int| 0 <= k < managed_index(ws, window) implies ws[k].window
            != window by {
            if k > 0 {
                assert(ws.drop_first()[k - 1].window != window);
            }
        }
    }
}

/// Any position with no match before it and a match (or the end) at it is
/// `managed_index`.
pub proof fn lemma_managed_index_unique(ws: Seq<WindowState>, window: u32, d: int)
    requires
        0 <= d <= ws.len(),
        d < ws.len() ==> ws[d].window == window,
        forall|k: int| 0 <= k < d ==> ws[k].window != window,
    ensures
        managed_index(ws, window) == d,
    decreases ws.len(),
{
    if ws.len() == 0 {
    } else if ws[0].window == window {
        assert(d == 0);
    } else {
        lemma_managed_index_unique(ws.drop_first(), window, d - 1);
    }
}

/// Removing a record keeps the registry's ids unique.
pub proof fn lemma_registry_ok_remove(ws: Seq<WindowState>, i: int)
    requires
        registry_ok(ws),
        0 <= i < ws.len(),
    ensures
        registry_ok(ws.remove(i)),
{
    let r = ws.remove(i);
    assert forall|a: int| 0 <= a < r.len() implies (#[trigger] r[a]).window
        != r[a].frame_window by {
        if a < i {
            assert(r[a] == ws[a]);
        } else {
            assert(r[a] == ws[a + 1]);
        }
    }
    assert forall|a: int, b: int|
        0 <= a < r.len() && 0 <= b < r.len() && a != b implies (#[trigger] r[a]).window != (
    #[trigger] r[b]).window && r[a].frame_window != r[b].frame_window && r[a].window
        != r[b].frame_window by {
        let oa = if a < i {
            a
        } else {
            a + 1
        };
        let ob = if b < i {
            b
        } else {
            b + 1
        };
        assert(r[a] == ws[oa] && r[b] == ws[ob]);
    }
}

/// Unmanaging removes the window from the registry for good: once its
/// record is gone, no other record carries its id, so a repeated unmanage
/// of the same window finds nothing and — by `unmap_notify`'s contract —
/// changes nothing and asks for nothing.
pub proof fn lemma_unmanage_idempotent(ws: Seq<WindowState>, window: u32)
    requires
        registry_ok(ws),
        managed_index(ws, window) < ws.len(),
    ensures
        managed_index(ws.remove(managed_index(ws, window)), window) == ws.remove(
            managed_index(ws, window),
        ).len(),
{
    let i = managed_index(ws, window);
    lemma_managed_index(ws, window);
    let r = ws.remove(i);
    assert forall|k: int| 0 <= k < r.len() implies (#[trigger] r[k]).window != window by {
        if k < i {
            assert(r[k] == ws[k]);
        } else {
            assert(r[k] == ws[k + 1]);
            assert(ws[k + 1].window != ws[i].window);
        }
    }
    lemma_managed_index_unique(r, window, r.len() as int);
}

/// What a primary-button press leaves as the live drag: a move-drag of the
/// managed window under the pointer, anchored at the negated press
/// coordinates; anything else leaves the drag alone.
pub open spec fn spec_button_press(
    ws: Seq<WindowState>,
    drag: Option<DragState>,
    detail: u8,
    event: u32,
    event_x: i16,
    event_y: i16,
) -> Option<DragState> {
    if detail == 1 && drag is None && find_spec(ws, event) is Some {
        Some(
            DragState {
                window: find_spec(ws, event).unwrap(),
                drag_type: DragType::Move,
                x: (0 - event_x) as i32,
                y: (0 - event_y) as i32,
            },
        )
    } else {
        drag
    }
}

/// What a button release leaves as the live drag: a primary-button release
/// clears it unconditionally, wherever the pointer is.
pub open spec fn spec_button_release(drag: Option<DragState>, detail: u8) -> Option<DragState> {
    if detail == 1 {
        None
    } else {
        drag
    }
}

/// The requests pointer motion asks for: while a drag is live, move its
/// frame to anchor plus the absolute pointer position; otherwise nothing.
pub open spec fn spec_motion(drag: Option<DragState>, root_x: i16, root_y: i16) -> Seq<WmAction> {
    match drag {
        Some(d) => seq![
            WmAction::ConfigureMove {
                window: d.window.frame_window,
                x: (d.x + root_x) as i32,
                y: (d.y + root_y) as i32,
            },
        ],
        None => Seq::empty(),
    }
}

/// A primary-button release ends the live drag whatever drag was active —
/// the release carries no position the handler reads, so where it happens
/// cannot matter — and pointer motion after it asks for no configure
/// request until a new press starts a drag.
pub proof fn lemma_release_ends_drag(drag: Option<DragState>, root_x: i16, root_y: i16)
    ensures
        spec_button_release(drag, 1) is None,
        spec_motion(spec_button_release(drag, 1), root_x, root_y) == Seq::<WmAction>::empty(),
{
}

/// The requests an enter event asks for: focus the entered managed window
/// and raise its frame; nothing for unmanaged windows.
pub open spec fn spec_enter(ws: Seq<WindowState>, window: u32) -> Seq<WmAction> {
    match find_spec(ws, window) {
        Some(s) => seq![
            WmAction::FocusWindow { window: s.window },
            WmAction::RaiseWindow { window: s.frame_window },
        ],
        None => Seq::empty(),
    }
}

/// The requests a leave event asks for: leaving the root resets input focus
/// to none (the null focus target); any other leave does nothing.
pub open spec fn spec_leave(root: u32, window: u32) -> Seq<WmAction> {
    if window == root {
        seq![WmAction::FocusWindow { window: 0 }]
    } else {
        Seq::empty()
    }
}

/// The requests a configure request gets: an unmanaged window is granted
/// its geometry verbatim, with sibling and stacking hints stripped; the
/// floating strategy does not reconfigure managed windows on request.
pub open spec fn spec_configure_request(
    ws: Seq<WindowState>,
    window: u32,
    x: i16,
    y: i16,
    width: u16,
    height: u16,
    border_width: u16,
) -> Seq<WmAction> {
    if find_spec(ws, window) is Some {
        Seq::empty()
    } else {
        seq![WmAction::ConfigurePassthrough { window, x, y, width, height, border_width }]
    }
}

impl WmLayoutKind {
    /// Manage `window` under the fresh frame id `frame` at its current
    /// geometry: append its record to the registry and ask for the frame
    /// to be created, the window reparented into it, and both mapped.
    /// Refused when either id already routes to a record.
    pub fn manage_window(
        self,
        state: &mut WmState,
        window: u32,
        frame: u32,
        geometry: &Geometry,
    ) -> (r: Result<Vec<WmAction>, ManageError>)
        requires
            old(state).wf(),
        ensures
            final(state).wf(),
            final(state).root == old(state).root,
            final(state).layout == old(state).layout,
            final(state).input_handler == old(state).input_handler,
            final(state).pending_expose == old(state).pending_expose,
            final(state).sequences_to_ignore == old(state).sequences_to_ignore,
            final(state).drag_window == old(state).drag_window,
            can_manage(old(state).windows@, window, frame) ==> {
                &&& final(state).windows@ == old(state).windows@.push(
                    WindowState {
                        window,
                        frame_window: frame,
                        x: geometry.x,
                        y: geometry.y,
                        width: geometry.width,
                    },
                )
                &&& r matches Ok(acts) && acts@ == manage_actions(window, frame, *geometry)
            },
            !can_manage(old(state).windows@, window, frame) ==> {
                &&& final(state).windows == old(state).windows
                &&& r == Err::<Vec<WmAction>, ManageError>(ManageError::IdInUse)
            },
    {
        match self {
            WmLayoutKind::Floating => {
                if window == frame {
                    return Err(ManageError::IdInUse);
                }
                if state.find_window(window).is_some() {
                    return Err(ManageError::IdInUse);
                }
                if state.find_window(frame).is_some() {
                    return Err(ManageError::IdInUse);
                }
                let mut acts: Vec<WmAction> = Vec::new();
                acts.push(
                    WmAction::CreateFrame {
                        frame,
                        x: geometry.x,
                        y: geometry.y,
                        width: geometry.width,
                        height: geometry.height,
                    },
                );
                acts.push(WmAction::GrabServer);
                acts.push(WmAction::AddToSaveSet { window });
                acts.push(WmAction::ReparentIntoFrame { window, frame });
                acts.push(WmAction::MapWindow { window });
                acts.push(WmAction::MapWindow { window: frame });
                acts.push(WmAction::UngrabServer);
                proof {
                    assert(acts@ =~= manage_actions(window, frame, *geometry));
                }
                let record = WindowState::new(window, frame, geometry);
                state.windows.push(record);
                proof {
                    let ws = old(state).windows@;
                    let nw = state.windows@;
                    lemma_find_spec_none(ws, window);
                    lemma_find_spec_none(ws, frame);
                    assert forall|a: int| 0 <= a < nw.len() implies (#[trigger] nw[a]).window
                        != nw[a].frame_window by {
                        if a < ws.len() {
                            assert(nw[a] == ws[a]);
                        }
                    }
                    assert forall|a: int, b: int|
                        0 <= a < nw.len() && 0 <= b < nw.len() && a != b implies (
                    #[trigger] nw[a]).window != (#[trigger] nw[b]).window && nw[a].frame_window
                        != nw[b].frame_window && nw[a].window != nw[b].frame_window by {
                        if a < ws.len() && b < ws.len() {
                            assert(nw[a] == ws[a] && nw[b] == ws[b]);
                        } else if a < ws.len() {
                            assert(nw[a] == ws[a] && nw[b] == record);
                            assert(!is_window_id_spec(window, ws[a]));
                            assert(!is_window_id_spec(frame, ws[a]));
                        } else {
                            assert(nw[a] == record && nw[b] == ws[b]);
                            assert(!is_window_id_spec(window, ws[b]));
                            assert(!is_window_id_spec(frame, ws[b]));
                        }
                    }
                }
                Ok(acts)
            },
        }
    }

    /// A managed window was unmapped: drop its record and ask for its
    /// save-set entry to go, the window to return to the root at its last
    /// known position, and its frame to be destroyed. Unmanaging a window
    /// that is not in the registry is a no-op.
    pub fn unmap_notify(self, state: &mut WmState, window: u32) -> (r: Vec<WmAction>)
        requires
            old(state).wf(),
        ensures
            final(state).wf(),
            final(state).root == old(state).root,
            final(state).layout == old(state).layout,
            final(state).input_handler == old(state).input_handler,
            final(state).pending_expose == old(state).pending_expose,
            final(state).sequences_to_ignore == old(state).sequences_to_ignore,
            final(state).drag_window == old(state).drag_window,
            ({
                let ws = old(state).windows@;
                let i = managed_index(ws, window);
                if i == ws.len() {
                    final(state).windows == old(state).windows && r@ == Seq::<WmAction>::empty()
                } else {
                    final(state).windows@ == ws.remove(i) && r@ == unmanage_actions(
                        old(state).root,
                        ws[i],
                    )
                }
            }),
    {
        match self {
            WmLayoutKind::Floating => {
                let ghost ws = state.windows@;
                let mut i: usize = 0;
                while i < state.windows.len() && state.windows[i].window != window
                    invariant
                        i <= ws.len(),
                        ws == state.windows@,
                        forall|k: int| 0 <= k < i ==> ws[k].window != window,
                    decreases ws.len() - i,
                {
                    i = i + 1;
                }
                proof {
                    lemma_managed_index_unique(ws, window, i as int);
                }
                if i == state.windows.len() {
                    return Vec::new();
                }
                let s = state.windows[i];
                state.windows.remove(i);
                proof {
                    lemma_registry_ok_remove(ws, i as int);
                }
                let mut r: Vec<WmAction> = Vec::new();
                r.push(WmAction::RemoveFromSaveSet { window: s.window });
                r.push(WmAction::ReparentToRoot { window: s.window, x: s.x, y: s.y });
                r.push(WmAction::DestroyWindow { window: s.frame_window });
                proof {
                    assert(r@ =~= unmanage_actions(old(state).root, ws[i as int]));
                }
                r
            },
        }
    }

    /// A client asked to map `window`: have the surrounding process query
    /// its geometry, allocate a frame id, and hand both to
    /// `manage_window`.
    pub fn map_request(self, _state: &WmState, window: u32) -> (r: Vec<WmAction>)
        ensures
            r@ == seq![WmAction::ManageWindow { window }],
    {
        match self {
            WmLayoutKind::Floating => {
                let mut r: Vec<WmAction> = Vec::new();
                r.push(WmAction::ManageWindow { window });
                proof {
                    assert(r@ =~= seq![WmAction::ManageWindow { window }]);
                }
                r
            },
        }
    }

    /// A client asked for new geometry: granted verbatim for unmanaged
    /// windows, ignored for managed ones.
    pub fn configure_request(
        self,
        state: &WmState,
        window: u32,
        x: i16,
        y: i16,
        width: u16,
        height: u16,
        border_width: u16,
    ) -> (r: Vec<WmAction>)
        ensures
            r@ == spec_configure_request(state.windows@, window, x, y, width, height, border_width),
    {
        match self {
            WmLayoutKind::Floating => {
                let mut r: Vec<WmAction> = Vec::new();
                if state.find_window(window).is_none() {
                    r.push(
                        WmAction::ConfigurePassthrough { window, x, y, width, height, border_width },
                    );
                    proof {
                        assert(r@ =~= spec_configure_request(
                            state.windows@,
                            window,
                            x,
                            y,
                            width,
                            height,
                            border_width,
                        ));
                    }
                }
                r
            },
        }
    }

    /// Part of `window` needs redrawing: remember it until the next loop
    /// iteration drains the pending set. Re-adding a pending window is a
    /// no-op.
    pub fn expose(self, state: &mut WmState, window: u32)
        requires
            old(state).wf(),
        ensures
            final(state).wf(),
            final(state).root == old(state).root,
            final(state).layout == old(state).layout,
            final(state).input_handler == old(state).input_handler,
            final(state).windows == old(state).windows,
            final(state).sequences_to_ignore == old(state).sequences_to_ignore,
            final(state).drag_window == old(state).drag_window,
            final(state).pending_expose@ == if old(state).pending_expose@.contains(window) {
                old(state).pending_expose@
            } else {
                old(state).pending_expose@.push(window)
            },
    {
        match self {
            WmLayoutKind::Floating => {
                let ghost pe = state.pending_expose@;
                let mut i: usize = 0;
                while i < state.pending_expose.len()
                    invariant
                        i <= pe.len(),
                        pe == state.pending_expose@,
                        *state == *old(state),
                        old(state).wf(),
                        forall|k: int| 0 <= k < i ==> pe[k] != window,
                    decreases pe.len() - i,
                {
                    if state.pending_expose[i] == window {
                        proof {
                            assert(pe.contains(window));
                        }
                        return ;
                    }
                    i = i + 1;
                }
                proof {
                    assert(!pe.contains(window)) by {
                        if pe.contains(window) {
                            let w = choose|w: int| 0 <= w < pe.len() && pe[w] == window;
                        }
                    }
                }
                state.pending_expose.push(window);
            },
        }
    }

    /// The pointer entered `window`: focus the managed window it routes to
    /// and raise its frame. Independent of any drag.
    pub fn enter(self, state: &WmState, window: u32) -> (r: Vec<WmAction>)
        ensures
            r@ == spec_enter(state.windows@, window),
    {
        match self {
            WmLayoutKind::Floating => {
                let mut r: Vec<WmAction> = Vec::new();
                match state.find_window(window) {
                    Some(s) => {
                        r.push(WmAction::FocusWindow { window: s.window });
                        r.push(WmAction::RaiseWindow { window: s.frame_window });
                        proof {
                            assert(r@ =~= spec_enter(state.windows@, window));
                        }
                    },
                    None => {},
                }
                r
            },
        }
    }

    /// The pointer left `window`: leaving the root resets input focus to
    /// none.
    pub fn leave(self, state: &WmState, window: u32) -> (r: Vec<WmAction>)
        ensures
            r@ == spec_leave(state.root, window),
    {
        match self {
            WmLayoutKind::Floating => {
                let mut r: Vec<WmAction> = Vec::new();
                if window == state.root {
                    r.push(WmAction::FocusWindow { window: 0 });
                    proof {
                        assert(r@ =~= spec_leave(state.root, window));
                    }
                }
                r
            },
        }
    }

    /// The pointer moved: while a drag is live, ask for its frame to move
    /// to anchor plus the pointer's absolute position.
    pub fn motion_notify(self, state: &WmState, root_x: i16, root_y: i16) -> (r: Vec<WmAction>)
        requires
            state.wf(),
        ensures
            r@ == spec_motion(state.drag_window, root_x, root_y),
    {
        match self {
            WmLayoutKind::Floating => {
                let mut r: Vec<WmAction> = Vec::new();
                match state.drag_window {
                    Some(d) => {
                        let x: i32 = d.x + root_x as i32;
                        let y: i32 = d.y + root_y as i32;
                        r.push(WmAction::ConfigureMove { window: d.window.frame_window, x, y });
                        proof {
                            assert(r@ =~= spec_motion(state.drag_window, root_x, root_y));
                        }
                    },
                    None => {},
                }
                r
            },
        }
    }

    /// A pointer button went down: a primary press over a managed window
    /// starts a move-drag anchored at the negated press coordinates; any
    /// other press changes nothing.
    pub fn button_press(
        self,
        state: &mut WmState,
        detail: u8,
        event: u32,
        event_x: i16,
        event_y: i16,
    )
        requires
            old(state).wf(),
        ensures
            final(state).wf(),
            final(state).root == old(state).root,
            final(state).layout == old(state).layout,
            final(state).input_handler == old(state).input_handler,
            final(state).windows == old(state).windows,
            final(state).pending_expose == old(state).pending_expose,
            final(state).sequences_to_ignore == old(state).sequences_to_ignore,
            final(state).drag_window == spec_button_press(
                old(state).windows@,
                old(state).drag_window,
                detail,
                event,
                event_x,
                event_y,
            ),
    {
        match self {
            WmLayoutKind::Floating => {
                if detail == 1 && state.drag_window.is_none() {
                    match state.find_window(event) {
                        Some(s) => {
                            let ax: i32 = -(event_x as i32);
                            let ay: i32 = -(event_y as i32);
                            state.drag_window = Some(DragState::new(s, DragType::Move, ax, ay));
                        },
                        None => {},
                    }
                }
            },
        }
    }

    /// A pointer button came back up: a primary release ends any live drag,
    /// wherever the pointer is.
    pub fn button_release(self, state: &mut WmState, detail: u8)
        requires
            old(state).wf(),
        ensures
            final(state).wf(),
            final(state).root == old(state).root,
            final(state).layout == old(state).layout,
            final(state).input_handler == old(state).input_handler,
            final(state).windows == old(state).windows,
            final(state).pending_expose == old(state).pending_expose,
            final(state).sequences_to_ignore == old(state).sequences_to_ignore,
            final(state).drag_window == spec_button_release(old(state).drag_window, detail),
    {
        match self {
            WmLayoutKind::Floating => {
                if detail == 1 {
                    state.drag_window = None;
                }
            },
        }
    }
}

} // verus!
