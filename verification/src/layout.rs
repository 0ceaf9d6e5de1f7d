//! The window registry, the drag state machine, and the event dispatch
//! core with its sequence-suppression queue.

use vstd::prelude::*;

use crate::events::{WmAction, WmEvent};
use crate::floating::{
    can_manage, manage_actions, managed_index, spec_button_press, spec_button_release,
    spec_configure_request, spec_enter, spec_leave, spec_motion, unmanage_actions,
};
use crate::input::{spec_fired, WmInputHandler};

verus! {

/// A window's geometry as the server reports it.
#[derive(Clone, Copy, Debug, PartialEq, Eq, Structural)]
pub struct Geometry {
    pub x: i16,
    pub y: i16,
    pub width: u16,
    pub height: u16,
}

/// The authoritative record of one managed window: the client window, the
/// decoration frame wrapped around it, and its placement.
#[derive(Clone, Copy, Debug, PartialEq, Eq, Structural)]
pub struct WindowState {
    pub window: u32,
    pub frame_window: u32,
    pub x: i16,
    pub y: i16,
    pub width: u16,
}

impl WindowState {
    /// The record for a newly managed window at the given geometry.
    pub fn new(window: u32, frame_window: u32, geom: &Geometry) -> (r: WindowState)
        ensures
            r == (WindowState { window, frame_window, x: geom.x, y: geom.y, width: geom.width }),
    {
        WindowState { window, frame_window, x: geom.x, y: geom.y, width: geom.width }
    }
}

/// What a pointer drag does to its window.
#[derive(Clone, Copy, Debug, PartialEq, Eq, Structural)]
pub enum DragType {
    Resize,
    Move,
}

/// The one live pointer drag: a snapshot of the dragged window's record and
/// the anchor added to absolute pointer positions to yield the frame
/// position. Anchors are the negated press coordinates, so they stay within
/// one coordinate's range.
#[derive(Clone, Copy, Debug, PartialEq, Eq, Structural)]
pub struct DragState {
    pub window: WindowState,
    pub drag_type: DragType,
    pub x: i32,
    pub y: i32,
}

impl DragState {
    /// A drag of `window` with the given anchor.
    pub fn new(window: WindowState, drag_type: DragType, x: i32, y: i32) -> (r: DragState)
        ensures
            r == (DragState { window, drag_type, x, y }),
    {
        DragState { window, drag_type, x, y }
    }
}

/// The closed set of layout strategies the dispatch core can drive. Only
/// the floating strategy exists today; adding one means adding a variant
/// and its arm in each dispatch method, without touching the core.
#[derive(Clone, Copy, Debug, PartialEq, Eq, Structural)]
pub enum WmLayoutKind {
    Floating,
}

/// Whether `window` routes to the record `s`: a lookup matches on the
/// client window and on its frame alike.
pub open spec fn is_window_id_spec(window: u32, s: WindowState) -> bool {
    window == s.window || window == s.frame_window
}

/// The first record that `window` routes to, or `None`.
pub open spec fn find_spec(ws: Seq<WindowState>, window: u32) -> Option<WindowState>
    decreases ws.len(),
{
    if ws.len() == 0 {
        None
    } else if is_window_id_spec(window, ws[0]) {
        Some(ws[0])
    } else {
        find_spec(ws.drop_first(), window)
    }
}

/// A lookup misses exactly when no record matches.
pub proof fn lemma_find_spec_none(ws: Seq<WindowState>, window: u32)
    ensures
        (find_spec(ws, window) is None) <==> (forall|i: int|
            0 <= i < ws.len() ==> !is_window_id_spec(window, ws[i])),
    decreases ws.len(),
{
    if ws.len() > 0 {
        lemma_find_spec_none(ws.drop_first(), window);
        if find_spec(ws, window) is None {
            assert forall|i: int| 0 <= i < ws.len() implies !is_window_id_spec(
                window,
                ws[i],
            ) by {
                if i > 0 {
                    assert(ws.drop_first()[i - 1] == ws[i]);
                }
            }
        } else {
            if !is_window_id_spec(window, ws[0]) {
                let j = choose|j: int|
                    0 <= j < ws.drop_first().len() && is_window_id_spec(
                        window,
                        #[trigger] ws.drop_first()[j],
                    );
                assert(is_window_id_spec(window, ws[j + 1]));
            }
        }
    }
}

/// The registry's invariant: within a record the window and its frame
/// differ, and no id — window or frame — appears in two records.
pub open spec fn registry_ok(ws: Seq<WindowState>) -> bool {
    &&& forall|i: int| 0 <= i < ws.len() ==> (#[trigger] ws[i]).window != ws[i].frame_window
    &&& forall|i: int, j: int|
        0 <= i < ws.len() && 0 <= j < ws.len() && i != j ==> (#[trigger] ws[i]).window != (
        #[trigger] ws[j]).window && ws[i].frame_window != ws[j].frame_window && ws[i].window
            != ws[j].frame_window
}

/// The suppression queue is kept ordered, smallest wire number first.
pub open spec fn sorted_u16(s: Seq<u16>) -> bool {
    forall|i: int, j: int| 0 <= i < j < s.len() ==> s[i] <= s[j]
}

/// The pending-expose set holds each window at most once.
pub open spec fn nodup_u32(s: Seq<u32>) -> bool {
    forall|i: int, j: int| 0 <= i < j < s.len() ==> s[i] != s[j]
}

/// A live drag's anchors are negated window-local press coordinates, so
/// they lie within this range and motion arithmetic stays in bounds.
pub open spec fn drag_ok(d: Option<DragState>) -> bool {
    d matches Some(ds) ==> -0x8000 <= ds.x <= 0x8000 && -0x8000 <= ds.y <= 0x8000
}

/// Half the 16-bit wire sequence range: a pending number at most this far
/// (wrapping) ahead of the current event has not yet passed.
pub const SEQ_HALF_RANGE: u16 = 0x7fff;

/// Wraparound-aware order on wire sequence numbers: whether the pending
/// number `to_ignore` is still ahead of (or at) the current `sequence`.
pub open spec fn seq_still_ahead(to_ignore: u16, sequence: u16) -> bool {
    (if to_ignore >= sequence {
        to_ignore - sequence
    } else {
        to_ignore + 0x10000 - sequence
    }) <= SEQ_HALF_RANGE
}

/// The suppression queue once every stale head — one the event stream has
/// already passed — is discarded.
pub open spec fn drop_stale(q: Seq<u16>, sequence: u16) -> Seq<u16>
    decreases q.len(),
{
    if q.len() == 0 {
        q
    } else if !seq_still_ahead(q[0], sequence) {
        drop_stale(q.drop_first(), sequence)
    } else {
        q
    }
}

/// Whether an event with this wire number is the expected echo at the head
/// of the queue, and must be dropped instead of dispatched.
pub open spec fn suppresses(q: Seq<u16>, sequence: u16) -> bool {
    drop_stale(q, sequence).len() > 0 && drop_stale(q, sequence)[0] == sequence
}

/// Discarding stale heads keeps the queue ordered.
pub proof fn lemma_drop_stale_sorted(q: Seq<u16>, sequence: u16)
    requires
        sorted_u16(q),
    ensures
        sorted_u16(drop_stale(q, sequence)),
    decreases q.len(),
{
    if q.len() > 0 && !seq_still_ahead(q[0], sequence) {
        assert(sorted_u16(q.drop_first()));
        lemma_drop_stale_sorted(q.drop_first(), sequence);
    }
}

/// Where a wire number belongs in the ordered queue: before the first entry
/// not smaller than it.
pub open spec fn insert_pos(q: Seq<u16>, v: u16) -> int
    decreases q.len(),
{
    if q.len() == 0 {
        0
    } else if q[0] >= v {
        0
    } else {
        1 + insert_pos(q.drop_first(), v)
    }
}

/// `insert_pos` lies within the queue, everything before it is smaller, and
/// the entry at it (when there is one) is not.
pub proof fn lemma_insert_pos(q: Seq<u16>, v: u16)
    ensures
        0 <= insert_pos(q, v) <= q.len(),
        insert_pos(q, v) < q.len() ==> q[insert_pos(q, v)] >= v,
        forall|k: int| 0 <= k < insert_pos(q, v) ==> q[k] < v,
    decreases q.len(),
{
    if q.len() == 0 {
    } else if q[0] >= v {
    } else {
        lemma_insert_pos(q.drop_first(), v);
        assert forall|k: int| 0 <= k < insert_pos(q, v) implies q[k] < v by {
            if k > 0 {
                assert(q.drop_first()[k - 1] < v);
            }
        }
    }
}

/// Any position with only smaller entries before it and no smaller entry at
/// it is `insert_pos`.
pub proof fn lemma_insert_pos_unique(q: Seq<u16>, v: u16, d: int)
    requires
        0 <= d <= q.len(),
        d < q.len() ==> q[d] >= v,
        forall|k: int| 0 <= k < d ==> q[k] < v,
    ensures
        insert_pos(q, v) == d,
    decreases q.len(),
{
    if q.len() == 0 {
    } else if q[0] >= v {
        assert(d == 0);
    } else {
        lemma_insert_pos_unique(q.drop_first(), v, d - 1);
    }
}

/// The dispatch core's state: the registry of managed windows, the
/// pending-expose set, the suppression queue, the live drag (if any), the
/// layout strategy, and the input handler. All of it is owned here; event
/// handlers receive it by exclusive reference for one event and keep
/// nothing.
pub struct WmState {
    pub root: u32,
    pub layout: WmLayoutKind,
    pub input_handler: WmInputHandler,
    pub windows: Vec<WindowState>,
    pub pending_expose: Vec<u32>,
    pub sequences_to_ignore: Vec<u16>,
    pub drag_window: Option<DragState>,
}

impl WmState {
    /// Well-formedness: the registry's ids are unique, the suppression
    /// queue is ordered, the pending-expose set is duplicate-free, and a
    /// live drag's anchors are in range. Established by `new` and kept by
    /// every method.
    pub open spec fn wf(self) -> bool {
        &&& registry_ok(self.windows@)
        &&& sorted_u16(self.sequences_to_ignore@)
        &&& nodup_u32(self.pending_expose@)
        &&& drag_ok(self.drag_window)
    }

    /// A fresh core for the given root: nothing managed, nothing pending,
    /// nothing suppressed, no drag.
    pub fn new(root: u32, layout: WmLayoutKind, input_handler: WmInputHandler) -> (r: WmState)
        ensures
            r.wf(),
            r.root == root,
            r.layout == layout,
            r.input_handler == input_handler,
            r.windows@ == Seq::<WindowState>::empty(),
            r.pending_expose@ == Seq::<u32>::empty(),
            r.sequences_to_ignore@ == Seq::<u16>::empty(),
            r.drag_window is None,
    {
        WmState {
            root,
            layout,
            input_handler,
            windows: Vec::new(),
            pending_expose: Vec::new(),
            sequences_to_ignore: Vec::new(),
            drag_window: None,
        }
    }

    /// Whether `window` routes to the record `state`: true for the client
    /// window id and for its frame id alike.
    pub fn is_window_id(&self, window: u32, state: &WindowState) -> (r: bool)
        ensures
            r == is_window_id_spec(window, *state),
    {
        window == state.window || window == state.frame_window
    }

    /// Look `window` up in the registry, matching client and frame ids.
    pub fn find_window(&self, window: u32) -> (r: Option<WindowState>)
        ensures
            r == find_spec(self.windows@, window),
    {
        proof {
            assert(self.windows@.skip(0) =~= self.windows@);
        }
        let mut i: usize = 0;
        while i < self.windows.len()
            invariant
                i <= self.windows@.len(),
                find_spec(self.windows@, window) == find_spec(
                    self.windows@.skip(i as int),
                    window,
                ),
            decreases self.windows@.len() - i,
        {
            let state = self.windows[i];
            proof {
                assert(self.windows@.skip(i as int)[0] == self.windows@[i as int]);
                assert(self.windows@.skip(i as int).drop_first() =~= self.windows@.skip(i + 1));
            }
            if self.is_window_id(window, &state) {
                return Some(state);
            }
            i = i + 1;
        }
        None
    }

    /// Drain the pending-expose set: redraw work happens once per loop
    /// iteration, not per event.
    pub fn refresh(&mut self)
        requires
            old(self).wf(),
        ensures
            final(self).wf(),
            final(self).pending_expose@ == Seq::<u32>::empty(),
            final(self).root == old(self).root,
            final(self).layout == old(self).layout,
            final(self).input_handler == old(self).input_handler,
            final(self).windows == old(self).windows,
            final(self).sequences_to_ignore == old(self).sequences_to_ignore,
            final(self).drag_window == old(self).drag_window,
    {
        self.pending_expose.clear();
    }

    /// Register a request's wire sequence number whose echo must be
    /// dropped. The queue stays ordered; equal numbers may pile up.
    pub fn push_ignore(&mut self, sequence: u16)
        requires
            old(self).wf(),
        ensures
            final(self).wf(),
            final(self).sequences_to_ignore@ == old(self).sequences_to_ignore@.insert(
                insert_pos(old(self).sequences_to_ignore@, sequence),
                sequence,
            ),
            final(self).root == old(self).root,
            final(self).layout == old(self).layout,
            final(self).input_handler == old(self).input_handler,
            final(self).windows == old(self).windows,
            final(self).pending_expose == old(self).pending_expose,
            final(self).drag_window == old(self).drag_window,
    {
        let ghost q = self.sequences_to_ignore@;
        let mut i: usize = 0;
        while i < self.sequences_to_ignore.len() && self.sequences_to_ignore[i] < sequence
            invariant
                i <= q.len(),
                q == self.sequences_to_ignore@,
                forall|k: int| 0 <= k < i ==> q[k] < sequence,
            decreases q.len() - i,
        {
            i = i + 1;
        }
        proof {
            lemma_insert_pos_unique(q, sequence, i as int);
        }
        self.sequences_to_ignore.insert(i, sequence);
        proof {
            q.insert_ensures(i as int, sequence);
            assert(sorted_u16(self.sequences_to_ignore@)) by {
                let nq = self.sequences_to_ignore@;
                assert forall|a: int, b: int| 0 <= a < b < nq.len() implies nq[a] <= nq[b] by {
                    if a < i && b < i {
                        assert(nq[a] == q[a] && nq[b] == q[b]);
                    } else if a < i && b == i {
                        assert(nq[a] == q[a] && nq[b] == sequence);
                    } else if a < i && b > i {
                        assert(nq[a] == q[a] && nq[b] == q[b - 1]);
                        assert(q[a] < sequence);
                        if b - 1 >= i {
                            assert(q[b - 1] >= sequence) by {
                                assert(q[i as int] >= sequence);
                            }
                        }
                    } else if a == i && b > i {
                        assert(nq[a] == sequence && nq[b] == q[b - 1]);
                        assert(q[b - 1] >= sequence) by {
                            assert(q[i as int] >= sequence);
                        }
                    } else {
                        assert(nq[a] == q[a - 1] && nq[b] == q[b - 1]);
                    }
                }
            }
        }
    }

    /// Hold one event's wire number against the queue: discard stale
    /// entries, then pop the head and report suppression exactly when the
    /// head is this number.
    fn apply_suppression(&mut self, sequence: u16) -> (suppressed: bool)
        requires
            old(self).wf(),
        ensures
            final(self).wf(),
            suppressed == suppresses(old(self).sequences_to_ignore@, sequence),
            final(self).sequences_to_ignore@ == if suppressed {
                drop_stale(old(self).sequences_to_ignore@, sequence).drop_first()
            } else {
                drop_stale(old(self).sequences_to_ignore@, sequence)
            },
            final(self).root == old(self).root,
            final(self).layout == old(self).layout,
            final(self).input_handler == old(self).input_handler,
            final(self).windows == old(self).windows,
            final(self).pending_expose == old(self).pending_expose,
            final(self).drag_window == old(self).drag_window,
    {
        let ghost q0 = old(self).sequences_to_ignore@;
        proof {
            lemma_drop_stale_sorted(q0, sequence);
        }
        loop
            invariant
                self.wf(),
                q0 == old(self).sequences_to_ignore@,
                drop_stale(q0, sequence) == drop_stale(self.sequences_to_ignore@, sequence),
                self.root == old(self).root,
                self.layout == old(self).layout,
                self.input_handler == old(self).input_handler,
                self.windows == old(self).windows,
                self.pending_expose == old(self).pending_expose,
                self.drag_window == old(self).drag_window,
            decreases self.sequences_to_ignore@.len(),
        {
            let ghost cur = self.sequences_to_ignore@;
            if self.sequences_to_ignore.len() == 0 {
                proof {
                    assert(drop_stale(cur, sequence) == cur);
                    assert(!suppresses(q0, sequence));
                }
                return false;
            }
            let to_ignore = self.sequences_to_ignore[0];
            let diff: u16 = if to_ignore >= sequence {
                to_ignore - sequence
            } else {
                ((to_ignore as u32 + 0x10000 - sequence as u32) as u16)
            };
            proof {
                assert((diff <= SEQ_HALF_RANGE) == seq_still_ahead(to_ignore, sequence));
            }
            if diff <= SEQ_HALF_RANGE {
                proof {
                    assert(drop_stale(cur, sequence) == cur);
                }
                if to_ignore == sequence {
                    proof {
                        assert(suppresses(q0, sequence));
                    }
                    self.sequences_to_ignore.remove(0);
                    proof {
                        assert(self.sequences_to_ignore@ =~= cur.drop_first());
                        assert(sorted_u16(self.sequences_to_ignore@));
                    }
                    return true;
                }
                proof {
                    assert(!suppresses(q0, sequence));
                    assert(self.sequences_to_ignore@ == drop_stale(q0, sequence));
                }
                return false;
            }
            self.sequences_to_ignore.remove(0);
            proof {
                assert(self.sequences_to_ignore@ =~= cur.drop_first());
                assert(sorted_u16(self.sequences_to_ignore@));
                assert(drop_stale(cur, sequence) == drop_stale(cur.drop_first(), sequence));
            }
        }
    }

    /// Rebuild the registry at startup by walking the server's existing
    /// tree: manage every mapped window without override-redirect, in tree
    /// order, each under its scanned geometry and fresh frame id.
    pub fn scan_windows(&mut self, entries: &Vec<ScanWindow>) -> (actions: Vec<WmAction>)
        requires
            old(self).wf(),
        ensures
            final(self).wf(),
            final(self).root == old(self).root,
            final(self).layout == old(self).layout,
            final(self).input_handler == old(self).input_handler,
            final(self).pending_expose == old(self).pending_expose,
            final(self).sequences_to_ignore == old(self).sequences_to_ignore,
            final(self).drag_window == old(self).drag_window,
            final(self).windows@ == scan_spec(old(self).windows@, entries@).0,
            actions@ == scan_spec(old(self).windows@, entries@).1,
    {
        let layout = self.layout;
        let mut actions: Vec<WmAction> = Vec::new();
        let mut i: usize = 0;
        proof {
            assert(entries@.take(0) =~= Seq::<ScanWindow>::empty());
        }
        while i < entries.len()
            invariant
                i <= entries@.len(),
                self.wf(),
                layout == self.layout,
                self.root == old(self).root,
                self.layout == old(self).layout,
                self.input_handler == old(self).input_handler,
                self.pending_expose == old(self).pending_expose,
                self.sequences_to_ignore == old(self).sequences_to_ignore,
                self.drag_window == old(self).drag_window,
                self.windows@ == scan_spec(old(self).windows@, entries@.take(i as int)).0,
                actions@ == scan_spec(old(self).windows@, entries@.take(i as int)).1,
            decreases entries@.len() - i,
        {
            let e = entries[i];
            proof {
                entries@.lemma_take_succ_push(i as int);
                lemma_scan_snoc(old(self).windows@, entries@.take(i as int), e);
            }
            if !e.override_redirect && e.mapped {
                match layout.manage_window(self, e.window, e.frame, &e.geometry) {
                    Ok(mut acts) => {
                        actions.append(&mut acts);
                    },
                    Err(_) => {},
                }
            }
            proof {
                assert(actions@ =~= scan_spec(old(self).windows@, entries@.take(i + 1)).1);
            }
            i = i + 1;
        }
        proof {
            assert(entries@.take(entries@.len() as int) =~= entries@);
        }
        actions
    }

    /// Process one event. Its wire number is first held against the
    /// suppression queue; a suppressed event — the echo of a request this
    /// core issued itself — is dropped whole. Anything else is routed by
    /// kind: key and button events to the input handler and the drag
    /// machine, structural events to the layout strategy. The returned
    /// requests are performed, in order, by the surrounding process.
    pub fn handle_event(&mut self, event: WmEvent) -> (actions: Vec<WmAction>)
        requires
            old(self).wf(),
        ensures
            final(self).wf(),
            ({
                let q0 = old(self).sequences_to_ignore@;
                let s = event.spec_sequence();
                if suppresses(q0, s) {
                    &&& actions@ == Seq::<WmAction>::empty()
                    &&& final(self).sequences_to_ignore@ == drop_stale(q0, s).drop_first()
                    &&& untouched_but_queue(*old(self), *final(self))
                } else {
                    &&& final(self).sequences_to_ignore@ == drop_stale(q0, s)
                    &&& dispatch_post(*old(self), *final(self), event, actions@)
                }
            }),
    {
        let seqno = event.sequence();
        let suppressed = self.apply_suppression(seqno);
        if suppressed {
            return Vec::new();
        }
        let layout = self.layout;
        match event {
            WmEvent::KeyPress { detail, state, .. } => self.input_handler.key_press(
                detail,
                state,
            ),
            WmEvent::KeyRelease { detail, .. } => {
                self.input_handler.key_release(detail);
                Vec::new()
            },
            WmEvent::ButtonPress { detail, event: target, event_x, event_y, .. } => {
                layout.button_press(self, detail, target, event_x, event_y);
                self.input_handler.button_press()
            },
            WmEvent::ButtonRelease { detail, .. } => {
                layout.button_release(self, detail);
                self.input_handler.button_release()
            },
            WmEvent::MotionNotify { root_x, root_y, .. } => layout.motion_notify(
                self,
                root_x,
                root_y,
            ),
            WmEvent::EnterNotify { event: target, .. } => layout.enter(self, target),
            WmEvent::LeaveNotify { event: target, .. } => layout.leave(self, target),
            WmEvent::UnmapNotify { window, .. } => layout.unmap_notify(self, window),
            WmEvent::ConfigureRequest { window, x, y, width, height, border_width, .. } => layout
                .configure_request(self, window, x, y, width, height, border_width),
            WmEvent::MapRequest { window, .. } => layout.map_request(self, window),
            WmEvent::Expose { window, .. } => {
                layout.expose(self, window);
                Vec::new()
            },
        }
    }
}

/// One window found in the server's tree at startup, with the attributes
/// the scan decision reads, its geometry, and the fresh frame id it would
/// be managed under.
#[derive(Clone, Copy, Debug, PartialEq, Eq, Structural)]
pub struct ScanWindow {
    pub window: u32,
    pub frame: u32,
    pub override_redirect: bool,
    pub mapped: bool,
    pub geometry: Geometry,
}

/// The startup scan manages exactly the mapped windows that do not have
/// override-redirect set.
pub open spec fn scan_should_manage(e: ScanWindow) -> bool {
    !e.override_redirect && e.mapped
}

/// What one scanned window does to the registry and the request stream.
pub open spec fn scan_step(ws: Seq<WindowState>, e: ScanWindow) -> (Seq<WindowState>, Seq<
    WmAction,
>) {
    if scan_should_manage(e) && can_manage(ws, e.window, e.frame) {
        (
            ws.push(
                WindowState {
                    window: e.window,
                    frame_window: e.frame,
                    x: e.geometry.x,
                    y: e.geometry.y,
                    width: e.geometry.width,
                },
            ),
            manage_actions(e.window, e.frame, e.geometry),
        )
    } else {
        (ws, Seq::empty())
    }
}

/// What scanning a whole tree does, window by window in tree order.
pub open spec fn scan_spec(ws: Seq<WindowState>, entries: Seq<ScanWindow>) -> (Seq<WindowState>, Seq<
    WmAction,
>)
    decreases entries.len(),
{
    if entries.len() == 0 {
        (ws, Seq::empty())
    } else {
        let step = scan_step(ws, entries[0]);
        let rest = scan_spec(step.0, entries.drop_first());
        (rest.0, step.1 + rest.1)
    }
}

/// Scanning one more window applies one more step at the end.
pub proof fn lemma_scan_snoc(ws: Seq<WindowState>, entries: Seq<ScanWindow>, e: ScanWindow)
    ensures
        ({
            let whole = scan_spec(ws, entries.push(e));
            let first = scan_spec(ws, entries);
            let step = scan_step(first.0, e);
            whole.0 == step.0 && whole.1 == first.1 + step.1
        }),
    decreases entries.len(),
{
    let whole = scan_spec(ws, entries.push(e));
    let first = scan_spec(ws, entries);
    let step = scan_step(first.0, e);
    assert(entries.push(e)[0] == if entries.len() == 0 {
        e
    } else {
        entries[0]
    });
    if entries.len() == 0 {
        assert(entries.push(e).drop_first() =~= Seq::<ScanWindow>::empty());
        assert(scan_spec(scan_step(ws, e).0, Seq::<ScanWindow>::empty()) == (
            scan_step(ws, e).0,
            Seq::<WmAction>::empty(),
        ));
        assert(whole.1 =~= first.1 + step.1);
    } else {
        assert(entries.push(e).drop_first() =~= entries.drop_first().push(e));
        lemma_scan_snoc(scan_step(ws, entries[0]).0, entries.drop_first(), e);
        assert(whole.1 =~= first.1 + step.1);
    }
}

/// All state but the suppression queue is as it was.
pub open spec fn untouched_but_queue(pre: WmState, post: WmState) -> bool {
    &&& post.root == pre.root
    &&& post.layout == pre.layout
    &&& post.input_handler == pre.input_handler
    &&& post.windows == pre.windows
    &&& post.pending_expose == pre.pending_expose
    &&& post.drag_window == pre.drag_window
}

/// What dispatching one (unsuppressed) event does: how the state after the
/// event relates to the state before it, and which requests come back, by
/// event kind. The suppression queue is governed separately by
/// `handle_event`'s own contract.
pub open spec fn dispatch_post(
    pre: WmState,
    post: WmState,
    event: WmEvent,
    actions: Seq<WmAction>,
) -> bool {
    match event {
        WmEvent::KeyPress { detail, state, .. } => {
            &&& post.root == pre.root
            &&& post.layout == pre.layout
            &&& post.windows == pre.windows
            &&& post.pending_expose == pre.pending_expose
            &&& post.drag_window == pre.drag_window
            &&& post.input_handler.root == pre.input_handler.root
            &&& post.input_handler.binding_registration == pre.input_handler.binding_registration
            &&& post.input_handler.key_buffer@ == pre.input_handler.key_buffer@.insert(
                detail as usize,
            )
            &&& actions == spec_fired(
                pre.input_handler.binding_registration.key_bindings@,
                pre.input_handler.key_buffer@.insert(detail as usize),
                state,
            )
        },
        WmEvent::KeyRelease { detail, .. } => {
            &&& post.root == pre.root
            &&& post.layout == pre.layout
            &&& post.windows == pre.windows
            &&& post.pending_expose == pre.pending_expose
            &&& post.drag_window == pre.drag_window
            &&& post.input_handler.root == pre.input_handler.root
            &&& post.input_handler.binding_registration == pre.input_handler.binding_registration
            &&& post.input_handler.key_buffer@ == pre.input_handler.key_buffer@.remove(
                detail as usize,
            )
            &&& actions == Seq::<WmAction>::empty()
        },
        WmEvent::ButtonPress { detail, event, event_x, event_y, .. } => {
            &&& post.root == pre.root
            &&& post.layout == pre.layout
            &&& post.input_handler == pre.input_handler
            &&& post.windows == pre.windows
            &&& post.pending_expose == pre.pending_expose
            &&& post.drag_window == spec_button_press(
                pre.windows@,
                pre.drag_window,
                detail,
                event,
                event_x,
                event_y,
            )
            &&& actions == Seq::<WmAction>::empty()
        },
        WmEvent::ButtonRelease { detail, .. } => {
            &&& post.root == pre.root
            &&& post.layout == pre.layout
            &&& post.input_handler == pre.input_handler
            &&& post.windows == pre.windows
            &&& post.pending_expose == pre.pending_expose
            &&& post.drag_window == spec_button_release(pre.drag_window, detail)
            &&& actions == Seq::<WmAction>::empty()
        },
        WmEvent::MotionNotify { root_x, root_y, .. } => {
            &&& untouched_but_queue(pre, post)
            &&& actions == spec_motion(pre.drag_window, root_x, root_y)
        },
        WmEvent::EnterNotify { event, .. } => {
            &&& untouched_but_queue(pre, post)
            &&& actions == spec_enter(pre.windows@, event)
        },
        WmEvent::LeaveNotify { event, .. } => {
            &&& untouched_but_queue(pre, post)
            &&& actions == spec_leave(pre.root, event)
        },
        WmEvent::UnmapNotify { window, .. } => {
            &&& post.root == pre.root
            &&& post.layout == pre.layout
            &&& post.input_handler == pre.input_handler
            &&& post.pending_expose == pre.pending_expose
            &&& post.drag_window == pre.drag_window
            &&& ({
                let ws = pre.windows@;
                let i = managed_index(ws, window);
                if i == ws.len() {
                    post.windows == pre.windows && actions == Seq::<WmAction>::empty()
                } else {
                    post.windows@ == ws.remove(i) && actions == unmanage_actions(pre.root, ws[i])
                }
            })
        },
        WmEvent::ConfigureRequest { window, x, y, width, height, border_width, .. } => {
            &&& untouched_but_queue(pre, post)
            &&& actions == spec_configure_request(
                pre.windows@,
                window,
                x,
                y,
                width,
                height,
                border_width,
            )
        },
        WmEvent::MapRequest { window, .. } => {
            &&& untouched_but_queue(pre, post)
            &&& actions == seq![WmAction::ManageWindow { window }]
        },
        WmEvent::Expose { window, .. } => {
            &&& post.root == pre.root
            &&& post.layout == pre.layout
            &&& post.input_handler == pre.input_handler
            &&& post.windows == pre.windows
            &&& post.drag_window == pre.drag_window
            &&& post.pending_expose@ == (if pre.pending_expose@.contains(window) {
                pre.pending_expose@
            } else {
                pre.pending_expose@.push(window)
            })
            &&& actions == Seq::<WmAction>::empty()
        },
    }
}

} // verus!
