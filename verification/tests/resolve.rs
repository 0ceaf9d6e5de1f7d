use sfwm::bindings::{BindError, BindingPattern, BindingRegistration, KeyCode, MOD_ALT,
    MOD_CONTROL, MOD_PRIMARY, MOD_SHIFT};
use sfwm::keymap::{parse_key, to_key, KeyMapping};

fn table() -> Vec<KeyMapping> {
    vec![
        KeyMapping { code: 36, names: vec![b"Return".to_vec()] },
        KeyMapping { code: 40, names: vec![b"d".to_vec(), b"D".to_vec()] },
        KeyMapping { code: 56, names: vec![b"b".to_vec(), b"B".to_vec()] },
        KeyMapping { code: 65, names: vec![b"space".to_vec()] },
    ]
}

#[test]
fn resolve_primary_modifier_and_key() {
    let r = parse_key(&table(), &b"M-Return".to_vec());
    assert_eq!(r, Ok(KeyCode { mask: MOD_PRIMARY, code: 36 }));
}

#[test]
fn resolve_key_without_modifiers() {
    let r = parse_key(&table(), &b"Return".to_vec());
    assert_eq!(r, Ok(KeyCode { mask: 0, code: 36 }));
}

#[test]
fn resolve_ors_all_modifier_bits() {
    let r = parse_key(&table(), &b"M-S-C-A-d".to_vec());
    assert_eq!(
        r,
        Ok(KeyCode { mask: MOD_PRIMARY | MOD_SHIFT | MOD_CONTROL | MOD_ALT, code: 40 })
    );
}

#[test]
fn resolve_accepts_long_modifier_names() {
    let r = parse_key(&table(), &b"Mod-Shift-Control-b".to_vec());
    assert_eq!(r, Ok(KeyCode { mask: MOD_PRIMARY | MOD_SHIFT | MOD_CONTROL, code: 56 }));
    let r2 = parse_key(&table(), &b"Ctrl-space".to_vec());
    assert_eq!(r2, Ok(KeyCode { mask: MOD_CONTROL, code: 65 }));
}

#[test]
fn resolve_duplicate_modifiers_are_idempotent() {
    let once = parse_key(&table(), &b"M-Return".to_vec());
    let twice = parse_key(&table(), &b"M-Mod-Return".to_vec());
    assert_eq!(once.unwrap().mask, twice.unwrap().mask);
}

#[test]
fn resolve_unknown_modifier_is_an_error() {
    let r = parse_key(&table(), &b"UnknownModifierToken-Return".to_vec());
    assert_eq!(r, Err(BindError::UnknownModifier));
}

#[test]
fn resolve_unknown_key_is_an_error() {
    let r = parse_key(&table(), &b"M-NoSuchKeyName".to_vec());
    assert_eq!(r, Err(BindError::UnknownKey));
}

#[test]
fn resolve_empty_pattern_is_an_error() {
    let r = parse_key(&table(), &b"".to_vec());
    assert_eq!(r, Err(BindError::UnknownKey));
}

#[test]
fn to_key_finds_any_listed_name() {
    let t = table();
    assert_eq!(to_key(&t, &b"d".to_vec()), Some(40));
    assert_eq!(to_key(&t, &b"D".to_vec()), Some(40));
    assert_eq!(to_key(&t, &b"nope".to_vec()), None);
}

#[test]
fn to_key_first_entry_wins() {
    let t = vec![
        KeyMapping { code: 10, names: vec![b"twin".to_vec()] },
        KeyMapping { code: 11, names: vec![b"twin".to_vec()] },
    ];
    assert_eq!(to_key(&t, &b"twin".to_vec()), Some(10));
}

#[test]
fn read_keybinds_resolves_every_pattern() {
    let binds = vec![
        BindingPattern { pattern: b"M-Return".to_vec(), action: 0 },
        BindingPattern { pattern: b"M-d".to_vec(), action: 1 },
        BindingPattern { pattern: b"M-b".to_vec(), action: 2 },
    ];
    let v = BindingRegistration::read_keybinds(&table(), &binds).unwrap();
    assert_eq!(v.len(), 3);
    assert_eq!(v[0].key, KeyCode { mask: MOD_PRIMARY, code: 36 });
    assert_eq!(v[1].key, KeyCode { mask: MOD_PRIMARY, code: 40 });
    assert_eq!(v[2].key, KeyCode { mask: MOD_PRIMARY, code: 56 });
    assert_eq!(v[0].action, 0);
    assert_eq!(v[2].action, 2);
}

#[test]
fn read_keybinds_names_the_offending_pattern() {
    let binds = vec![
        BindingPattern { pattern: b"M-Return".to_vec(), action: 0 },
        BindingPattern { pattern: b"M-NoSuchKeyName".to_vec(), action: 1 },
        BindingPattern { pattern: b"Bogus-Return".to_vec(), action: 2 },
    ];
    let f = BindingRegistration::read_keybinds(&table(), &binds).unwrap_err();
    assert_eq!(f.index, 1);
    assert_eq!(f.error, BindError::UnknownKey);
}

#[test]
fn registration_new_builds_the_registry() {
    let binds = vec![BindingPattern { pattern: b"C-space".to_vec(), action: 7 }];
    let reg = BindingRegistration::new(table(), &binds).unwrap();
    assert_eq!(reg.key_bindings.len(), 1);
    assert_eq!(reg.key_bindings[0].key, KeyCode { mask: MOD_CONTROL, code: 65 });
    assert_eq!(reg.key_bindings[0].action, 7);
    assert!(reg.mouse_bindings.is_empty());
    let kc = reg.parse_key(&b"S-Return".to_vec()).unwrap();
    assert_eq!(kc, KeyCode { mask: MOD_SHIFT, code: 36 });
    assert_eq!(reg.to_key(&b"space".to_vec()), Some(65));
}

#[test]
fn registration_new_rejects_a_bad_configuration() {
    let binds = vec![
        BindingPattern { pattern: b"M-d".to_vec(), action: 0 },
        BindingPattern { pattern: b"Hyper-d".to_vec(), action: 1 },
    ];
    let f = match BindingRegistration::new(table(), &binds) {
        Ok(_) => panic!("a bad pattern must be rejected"),
        Err(f) => f,
    };
    assert_eq!(f.index, 1);
    assert_eq!(f.error, BindError::UnknownModifier);
}
