use sfwm::bindings::{BindingPattern, BindingRegistration, KeyCode, MOD_PRIMARY, MOD_SHIFT};
use sfwm::buffer::KeyBuffer;
use sfwm::events::WmAction;
use sfwm::input::{FloatingKeyPressHandler, WmInputHandler};
use sfwm::keymap::KeyMapping;

fn registry() -> BindingRegistration {
    let table = vec![
        KeyMapping { code: 36, names: vec![b"Return".to_vec()] },
        KeyMapping { code: 40, names: vec![b"d".to_vec()] },
    ];
    let binds = vec![
        BindingPattern { pattern: b"M-Return".to_vec(), action: 0 },
        BindingPattern { pattern: b"M-S-Return".to_vec(), action: 1 },
        BindingPattern { pattern: b"M-d".to_vec(), action: 2 },
    ];
    BindingRegistration::new(table, &binds).unwrap()
}

#[test]
fn buffer_round_trip() {
    let mut b = KeyBuffer::new();
    assert!(!b.is_buffered(36));
    b.add_to_buffer(36);
    assert!(b.is_buffered(36));
    b.add_to_buffer(36);
    b.remove_from_buffer(36);
    assert!(!b.is_buffered(36));
}

#[test]
fn buffer_remove_of_absent_key_is_a_noop() {
    let mut b = KeyBuffer::new();
    b.add_to_buffer(10);
    b.remove_from_buffer(11);
    assert!(b.is_buffered(10));
}

#[test]
fn buffer_is_pressed_needs_mask_and_code() {
    let mut b = KeyBuffer::new();
    b.add_to_buffer(36);
    assert!(!b.is_pressed(KeyCode { mask: 64, code: 36 }));
    b.add_to_buffer(64);
    assert!(b.is_pressed(KeyCode { mask: 64, code: 36 }));
    assert!(b.is_pressed(KeyCode { mask: 36, code: 64 }));
}

#[test]
fn grab_list_covers_both_modifier_passes() {
    let h = WmInputHandler::new(1, registry());
    let grabs = h.grab_key_input();
    assert_eq!(
        grabs,
        vec![
            WmAction::GrabKey { mask: MOD_PRIMARY, code: 36 },
            WmAction::GrabKey { mask: MOD_PRIMARY | MOD_SHIFT, code: 36 },
            WmAction::GrabKey { mask: MOD_PRIMARY, code: 40 },
            WmAction::GrabKey { mask: MOD_PRIMARY, code: 36 },
            WmAction::GrabKey { mask: MOD_PRIMARY | MOD_SHIFT, code: 36 },
            WmAction::GrabKey { mask: MOD_PRIMARY, code: 40 },
        ]
    );
}

#[test]
fn key_press_fires_each_satisfied_binding_once() {
    let mut h = WmInputHandler::new(1, registry());
    let fired = h.key_press(36, MOD_PRIMARY);
    assert_eq!(fired, vec![WmAction::InvokeAction { action: 0 }]);
}

#[test]
fn key_press_with_more_modifiers_fires_supersets_too() {
    let mut h = WmInputHandler::new(1, registry());
    let fired = h.key_press(36, MOD_PRIMARY | MOD_SHIFT);
    assert_eq!(
        fired,
        vec![WmAction::InvokeAction { action: 0 }, WmAction::InvokeAction { action: 1 }]
    );
}

#[test]
fn key_press_without_required_modifiers_fires_nothing() {
    let mut h = WmInputHandler::new(1, registry());
    let fired = h.key_press(36, 0);
    assert!(fired.is_empty());
}

#[test]
fn key_release_forgets_the_code() {
    let mut h = WmInputHandler::new(1, registry());
    let fired = h.key_press(36, MOD_PRIMARY);
    assert_eq!(fired.len(), 1);
    h.key_release(36);
    let fired_other = h.key_press(40, MOD_PRIMARY);
    assert_eq!(fired_other, vec![WmAction::InvokeAction { action: 2 }]);
}

#[test]
fn handler_button_events_do_nothing() {
    let h = WmInputHandler::new(1, registry());
    assert!(h.button_press().is_empty());
    assert!(h.button_release().is_empty());
}

#[test]
fn floating_input_hooks_do_nothing() {
    let hooks = FloatingKeyPressHandler;
    assert!(hooks.button_press(1).is_empty());
    assert!(hooks.button_release(1).is_empty());
    assert!(hooks.key_press(36).is_empty());
    assert!(hooks.key_release(36).is_empty());
}
