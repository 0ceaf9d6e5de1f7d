use sfwm::bindings::{BindingPattern, BindingRegistration, MOD_PRIMARY};
use sfwm::events::{WmAction, WmEvent};
use sfwm::floating::ManageError;
use sfwm::input::WmInputHandler;
use sfwm::keymap::KeyMapping;
use sfwm::layout::{Geometry, ScanWindow, WmLayoutKind, WmState};

const ROOT: u32 = 1;

fn fresh_state() -> WmState {
    let reg = BindingRegistration::new(Vec::new(), &Vec::new()).unwrap();
    WmState::new(ROOT, WmLayoutKind::Floating, WmInputHandler::new(ROOT, reg))
}

fn state_with_bindings() -> WmState {
    let table = vec![KeyMapping { code: 36, names: vec![b"Return".to_vec()] }];
    let binds = vec![BindingPattern { pattern: b"M-Return".to_vec(), action: 9 }];
    let reg = BindingRegistration::new(table, &binds).unwrap();
    WmState::new(ROOT, WmLayoutKind::Floating, WmInputHandler::new(ROOT, reg))
}

fn manage(state: &mut WmState, window: u32, frame: u32, g: Geometry) -> Vec<WmAction> {
    let layout = state.layout;
    layout.manage_window(state, window, frame, &g).unwrap()
}

#[test]
fn manage_creates_one_frame_and_maps_both() {
    let mut s = fresh_state();
    let acts = manage(&mut s, 100, 200, Geometry { x: 10, y: 20, width: 100, height: 50 });

    let frames: Vec<&WmAction> = acts
        .iter()
        .filter(|a| matches!(a, WmAction::CreateFrame { .. }))
        .collect();
    assert_eq!(frames.len(), 1);
    assert_eq!(
        *frames[0],
        WmAction::CreateFrame { frame: 200, x: 10, y: 20, width: 100, height: 50 }
    );
    assert!(acts.contains(&WmAction::MapWindow { window: 100 }));
    assert!(acts.contains(&WmAction::MapWindow { window: 200 }));
    assert!(acts.contains(&WmAction::ReparentIntoFrame { window: 100, frame: 200 }));

    assert_eq!(s.windows.len(), 1);
    let w = s.windows[0];
    assert_eq!(w.window, 100);
    assert_eq!(w.frame_window, 200);
    assert_eq!((w.x, w.y, w.width), (10, 20, 100));
}

#[test]
fn manage_refuses_a_second_frame_for_the_same_window() {
    let mut s = fresh_state();
    manage(&mut s, 100, 200, Geometry { x: 0, y: 0, width: 5, height: 5 });
    let layout = s.layout;
    let again = layout.manage_window(
        &mut s,
        100,
        300,
        &Geometry { x: 0, y: 0, width: 5, height: 5 },
    );
    assert_eq!(again, Err(ManageError::IdInUse));
    assert_eq!(s.windows.len(), 1);
}

#[test]
fn find_window_matches_window_and_frame() {
    let mut s = fresh_state();
    manage(&mut s, 100, 200, Geometry { x: 0, y: 0, width: 5, height: 5 });
    assert_eq!(s.find_window(100).unwrap().frame_window, 200);
    assert_eq!(s.find_window(200).unwrap().window, 100);
    assert!(s.find_window(300).is_none());
}

#[test]
fn unmanage_removes_and_restores() {
    let mut s = fresh_state();
    manage(&mut s, 100, 200, Geometry { x: 10, y: 20, width: 100, height: 50 });
    let layout = s.layout;
    let acts = layout.unmap_notify(&mut s, 100);
    assert_eq!(
        acts,
        vec![
            WmAction::RemoveFromSaveSet { window: 100 },
            WmAction::ReparentToRoot { window: 100, x: 10, y: 20 },
            WmAction::DestroyWindow { window: 200 },
        ]
    );
    assert!(s.windows.is_empty());
}

#[test]
fn repeated_unmanage_is_a_noop() {
    let mut s = fresh_state();
    manage(&mut s, 100, 200, Geometry { x: 10, y: 20, width: 100, height: 50 });
    let layout = s.layout;
    let first = layout.unmap_notify(&mut s, 100);
    assert_eq!(first.len(), 3);
    let second = layout.unmap_notify(&mut s, 100);
    assert!(second.is_empty());
    assert!(s.windows.is_empty());
}

#[test]
fn drag_press_then_motion_moves_the_frame() {
    let mut s = fresh_state();
    manage(&mut s, 100, 200, Geometry { x: 10, y: 20, width: 100, height: 50 });
    let press = s.handle_event(WmEvent::ButtonPress {
        sequence: 0,
        detail: 1,
        event: 100,
        event_x: 5,
        event_y: 7,
    });
    assert!(press.is_empty());
    assert!(s.drag_window.is_some());

    let motion = s.handle_event(WmEvent::MotionNotify { sequence: 0, root_x: 50, root_y: 60 });
    assert_eq!(motion, vec![WmAction::ConfigureMove { window: 200, x: 45, y: 53 }]);
}

#[test]
fn press_over_unmanaged_window_starts_no_drag() {
    let mut s = fresh_state();
    s.handle_event(WmEvent::ButtonPress {
        sequence: 0,
        detail: 1,
        event: 42,
        event_x: 5,
        event_y: 7,
    });
    assert!(s.drag_window.is_none());
    let motion = s.handle_event(WmEvent::MotionNotify { sequence: 0, root_x: 50, root_y: 60 });
    assert!(motion.is_empty());
}

#[test]
fn release_clears_the_drag_wherever_it_happens() {
    let mut s = fresh_state();
    manage(&mut s, 100, 200, Geometry { x: 10, y: 20, width: 100, height: 50 });
    s.handle_event(WmEvent::ButtonPress {
        sequence: 0,
        detail: 1,
        event: 200,
        event_x: 5,
        event_y: 7,
    });
    assert!(s.drag_window.is_some());
    s.handle_event(WmEvent::ButtonRelease { sequence: 0, detail: 1 });
    assert!(s.drag_window.is_none());
    let motion = s.handle_event(WmEvent::MotionNotify { sequence: 0, root_x: 50, root_y: 60 });
    assert!(motion.is_empty());
}

#[test]
fn suppression_drops_exactly_the_pending_sequence() {
    let mut s = fresh_state();
    s.push_ignore(6);
    let a5 = s.handle_event(WmEvent::MapRequest { sequence: 5, window: 100 });
    assert_eq!(a5, vec![WmAction::ManageWindow { window: 100 }]);
    let a6 = s.handle_event(WmEvent::MapRequest { sequence: 6, window: 101 });
    assert!(a6.is_empty());
    let a7 = s.handle_event(WmEvent::MapRequest { sequence: 7, window: 102 });
    assert_eq!(a7, vec![WmAction::ManageWindow { window: 102 }]);
    assert!(s.sequences_to_ignore.is_empty());
}

#[test]
fn suppression_is_wraparound_aware() {
    let mut s = fresh_state();
    s.push_ignore(5);
    let early = s.handle_event(WmEvent::MapRequest { sequence: 0xfff0, window: 100 });
    assert_eq!(early.len(), 1);
    assert_eq!(s.sequences_to_ignore, vec![5]);
    let hit = s.handle_event(WmEvent::MapRequest { sequence: 5, window: 100 });
    assert!(hit.is_empty());
    assert!(s.sequences_to_ignore.is_empty());
}

#[test]
fn stale_pending_sequences_are_discarded() {
    let mut s = fresh_state();
    s.push_ignore(3);
    let acts = s.handle_event(WmEvent::MapRequest { sequence: 10, window: 100 });
    assert_eq!(acts.len(), 1);
    assert!(s.sequences_to_ignore.is_empty());
}

#[test]
fn push_ignore_keeps_the_queue_ordered() {
    let mut s = fresh_state();
    s.push_ignore(9);
    s.push_ignore(4);
    s.push_ignore(9);
    s.push_ignore(6);
    assert_eq!(s.sequences_to_ignore, vec![4, 6, 9, 9]);
}

#[test]
fn configure_request_passes_unmanaged_through() {
    let mut s = fresh_state();
    let acts = s.handle_event(WmEvent::ConfigureRequest {
        sequence: 0,
        window: 300,
        x: 1,
        y: 2,
        width: 30,
        height: 40,
        border_width: 0,
    });
    assert_eq!(
        acts,
        vec![WmAction::ConfigurePassthrough {
            window: 300,
            x: 1,
            y: 2,
            width: 30,
            height: 40,
            border_width: 0,
        }]
    );
}

#[test]
fn configure_request_for_managed_window_is_ignored() {
    let mut s = fresh_state();
    manage(&mut s, 100, 200, Geometry { x: 0, y: 0, width: 5, height: 5 });
    let acts = s.handle_event(WmEvent::ConfigureRequest {
        sequence: 0,
        window: 100,
        x: 1,
        y: 2,
        width: 30,
        height: 40,
        border_width: 0,
    });
    assert!(acts.is_empty());
}

#[test]
fn enter_focuses_and_raises_managed_windows() {
    let mut s = fresh_state();
    manage(&mut s, 100, 200, Geometry { x: 0, y: 0, width: 5, height: 5 });
    let acts = s.handle_event(WmEvent::EnterNotify { sequence: 0, event: 200 });
    assert_eq!(
        acts,
        vec![
            WmAction::FocusWindow { window: 100 },
            WmAction::RaiseWindow { window: 200 },
        ]
    );
    let none = s.handle_event(WmEvent::EnterNotify { sequence: 0, event: 999 });
    assert!(none.is_empty());
}

#[test]
fn leave_resets_focus_only_on_the_root() {
    let mut s = fresh_state();
    let on_root = s.handle_event(WmEvent::LeaveNotify { sequence: 0, event: ROOT });
    assert_eq!(on_root, vec![WmAction::FocusWindow { window: 0 }]);
    let elsewhere = s.handle_event(WmEvent::LeaveNotify { sequence: 0, event: 100 });
    assert!(elsewhere.is_empty());
}

#[test]
fn expose_deduplicates_and_refresh_drains() {
    let mut s = fresh_state();
    s.handle_event(WmEvent::Expose { sequence: 0, window: 100 });
    s.handle_event(WmEvent::Expose { sequence: 0, window: 100 });
    s.handle_event(WmEvent::Expose { sequence: 0, window: 101 });
    assert_eq!(s.pending_expose, vec![100, 101]);
    s.refresh();
    assert!(s.pending_expose.is_empty());
}

#[test]
fn map_request_asks_for_a_manage() {
    let mut s = fresh_state();
    let acts = s.handle_event(WmEvent::MapRequest { sequence: 0, window: 100 });
    assert_eq!(acts, vec![WmAction::ManageWindow { window: 100 }]);
    assert!(s.windows.is_empty());
}

#[test]
fn key_press_through_dispatch_fires_the_binding() {
    let mut s = state_with_bindings();
    let acts = s.handle_event(WmEvent::KeyPress { sequence: 0, detail: 36, state: MOD_PRIMARY });
    assert_eq!(acts, vec![WmAction::InvokeAction { action: 9 }]);
    s.handle_event(WmEvent::KeyRelease { sequence: 0, detail: 36 });
    let quiet = s.handle_event(WmEvent::KeyPress { sequence: 0, detail: 40, state: 0 });
    assert!(quiet.is_empty());
}

#[test]
fn scan_manages_only_normal_mapped_windows() {
    let mut s = fresh_state();
    let g = Geometry { x: 0, y: 0, width: 8, height: 8 };
    let entries = vec![
        ScanWindow { window: 50, frame: 60, override_redirect: true, mapped: true, geometry: g },
        ScanWindow { window: 70, frame: 80, override_redirect: false, mapped: true, geometry: g },
        ScanWindow { window: 90, frame: 95, override_redirect: false, mapped: false, geometry: g },
    ];
    let acts = s.scan_windows(&entries);
    assert_eq!(s.windows.len(), 1);
    assert_eq!(s.windows[0].window, 70);
    assert_eq!(s.windows[0].frame_window, 80);
    let frames: Vec<&WmAction> = acts
        .iter()
        .filter(|a| matches!(a, WmAction::CreateFrame { .. }))
        .collect();
    assert_eq!(frames.len(), 1);
    assert_eq!(*frames[0], WmAction::CreateFrame { frame: 80, x: 0, y: 0, width: 8, height: 8 });
}
