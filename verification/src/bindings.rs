//! Key/button binding types and the binding registry, built once at startup
//! from the operator's configured patterns.

use vstd::prelude::*;

use crate::keymap::{spec_parse_key, spec_to_key, parse_key, to_key, KeyMapping};

verus! {

/// Modifier-mask bit for the Shift modifier.
pub const MOD_SHIFT: u16 = 0x1;
/// Modifier-mask bit for the Control modifier.
pub const MOD_CONTROL: u16 = 0x4;
/// Modifier-mask bit for the alternate modifier (mod1).
pub const MOD_ALT: u16 = 0x8;
/// Modifier-mask bit for the primary modifier (mod4).
pub const MOD_PRIMARY: u16 = 0x40;

/// A resolved key chord: the modifier mask that must be held and the
/// physical key code that must be pressed.
#[derive(Clone, Copy, Debug, PartialEq, Eq, Structural)]
pub struct KeyCode {
    pub mask: u16,
    pub code: u8,
}

/// Why a binding pattern failed to resolve.
#[derive(Clone, Copy, Debug, PartialEq, Eq, Structural)]
pub enum BindError {
    /// A token before the final one is not a known modifier name.
    UnknownModifier,
    /// The final token names no key of the key table.
    UnknownKey,
}

/// The modifier-mask bit a single modifier token stands for, or `None`
/// for an unrecognized token. Tokens (as ASCII bytes): "S"/"Shift",
/// "C"/"Ctrl"/"Control", "A", and "M"/"Mod".
pub open spec fn spec_modifier_bit(tok: Seq<u8>) -> Option<u16> {
    if tok =~= seq![83u8] || tok =~= seq![83u8, 104u8, 105u8, 102u8, 116u8] {
        Some(MOD_SHIFT)
    } else if tok =~= seq![67u8] || tok =~= seq![67u8, 116u8, 114u8, 108u8]
        || tok =~= seq![67u8, 111u8, 110u8, 116u8, 114u8, 111u8, 108u8] {
        Some(MOD_CONTROL)
    } else if tok =~= seq![65u8] {
        Some(MOD_ALT)
    } else if tok =~= seq![77u8] || tok =~= seq![77u8, 111u8, 100u8] {
        Some(MOD_PRIMARY)
    } else {
        None
    }
}

/// Resolve one modifier token of a binding pattern to its mask bit.
pub fn modifier_bit(tok: &[u8]) -> (r: Option<u16>)
    ensures
        r == spec_modifier_bit(tok@),
{
    if tok.len() == 1 {
        match tok[0] {
            83u8 => Some(MOD_SHIFT),
            67u8 => Some(MOD_CONTROL),
            65u8 => Some(MOD_ALT),
            77u8 => Some(MOD_PRIMARY),
            _ => None,
        }
    } else if tok.len() == 3 && tok[0] == 77u8 && tok[1] == 111u8 && tok[2] == 100u8 {
        Some(MOD_PRIMARY)
    } else if tok.len() == 4 && tok[0] == 67u8 && tok[1] == 116u8 && tok[2] == 114u8
        && tok[3] == 108u8 {
        Some(MOD_CONTROL)
    } else if tok.len() == 5 && tok[0] == 83u8 && tok[1] == 104u8 && tok[2] == 105u8
        && tok[3] == 102u8 && tok[4] == 116u8 {
        Some(MOD_SHIFT)
    } else if tok.len() == 7 && tok[0] == 67u8 && tok[1] == 111u8 && tok[2] == 110u8
        && tok[3] == 116u8 && tok[4] == 114u8 && tok[5] == 111u8 && tok[6] == 108u8 {
        Some(MOD_CONTROL)
    } else {
        None
    }
}

/// A key binding: when the chord is pressed, the configured action with
/// this identifier runs.
#[derive(Clone, Copy, Debug, PartialEq, Eq, Structural)]
pub struct KeyBinding {
    pub key: KeyCode,
    pub action: usize,
}

/// A mouse binding: a pointer button paired with an action identifier.
#[derive(Clone, Copy, Debug, PartialEq, Eq, Structural)]
pub struct MouseBinding {
    pub button: u8,
    pub action: usize,
}

/// One configured binding, as the operator wrote it: a textual pattern
/// (ASCII bytes, "mod-mod-Key") and the action it should run.
#[derive(Debug)]
pub struct BindingPattern {
    pub pattern: Vec<u8>,
    pub action: usize,
}

/// A pattern that failed to resolve: its position in the configuration and
/// why it failed. A single bad pattern aborts startup.
#[derive(Clone, Copy, Debug, PartialEq, Eq, Structural)]
pub struct BindFailure {
    pub index: usize,
    pub error: BindError,
}

/// The binding registry: every configured binding resolved against the host
/// key table. Immutable after construction.
pub struct BindingRegistration {
    pub mouse_bindings: Vec<MouseBinding>,
    pub key_bindings: Vec<KeyBinding>,
    pub code_map: Vec<KeyMapping>,
}

impl BindingRegistration {
    /// Resolve a whole binding configuration. Fails on the first pattern
    /// that does not resolve, naming it; succeeds only when every pattern
    /// resolves.
    pub fn read_keybinds(code_map: &Vec<KeyMapping>, binds: &Vec<BindingPattern>) -> (r: Result<
        Vec<KeyBinding>,
        BindFailure,
    >)
        ensures
            match r {
                Ok(v) => {
                    &&& v@.len() == binds@.len()
                    &&& forall|i: int|
                        0 <= i < binds@.len() ==> spec_parse_key(code_map@, binds@[i].pattern@)
                            == Ok::<KeyCode, BindError>(#[trigger] v@[i].key)
                    &&& forall|i: int|
                        0 <= i < binds@.len() ==> #[trigger] v@[i].action == binds@[i].action
                },
                Err(f) => {
                    &&& f.index < binds@.len()
                    &&& spec_parse_key(code_map@, binds@[f.index as int].pattern@) == Err::<
                        KeyCode,
                        BindError,
                    >(f.error)
                    &&& forall|i: int|
                        0 <= i < f.index ==> (#[trigger] spec_parse_key(
                            code_map@,
                            binds@[i].pattern@,
                        )) is Ok
                },
            },
    {
        let mut v: Vec<KeyBinding> = Vec::new();
        let mut i: usize = 0;
        while i < binds.len()
            invariant
                i <= binds@.len(),
                v@.len() == i,
                forall|k: int|
                    0 <= k < i ==> spec_parse_key(code_map@, binds@[k].pattern@) == Ok::<
                        KeyCode,
                        BindError,
                    >(#[trigger] v@[k].key),
                forall|k: int| 0 <= k < i ==> #[trigger] v@[k].action == binds@[k].action,
            decreases binds@.len() - i,
        {
            match parse_key(code_map, &binds[i].pattern) {
                Ok(key) => {
                    v.push(KeyBinding { key, action: binds[i].action });
                },
                Err(error) => {
                    proof {
                        assert forall|k: int| 0 <= k < i implies (#[trigger] spec_parse_key(
                            code_map@,
                            binds@[k].pattern@,
                        )) is Ok by {
                            assert(spec_parse_key(code_map@, binds@[k].pattern@) == Ok::<
                                KeyCode,
                                BindError,
                            >(v@[k].key));
                        }
                    }
                    return Err(BindFailure { index: i, error });
                },
            }
            i = i + 1;
        }
        Ok(v)
    }

    /// Build the registry from the host key table and the configured
    /// bindings. Resolution is fatal-on-failure and resolution alone:
    /// no configured action runs here.
    pub fn new(code_map: Vec<KeyMapping>, binds: &Vec<BindingPattern>) -> (r: Result<
        BindingRegistration,
        BindFailure,
    >)
        ensures
            match r {
                Ok(reg) => {
                    &&& reg.code_map@ == code_map@
                    &&& reg.mouse_bindings@.len() == 0
                    &&& reg.key_bindings@.len() == binds@.len()
                    &&& forall|i: int|
                        0 <= i < binds@.len() ==> spec_parse_key(code_map@, binds@[i].pattern@)
                            == Ok::<KeyCode, BindError>(#[trigger] reg.key_bindings@[i].key)
                    &&& forall|i: int|
                        0 <= i < binds@.len() ==> #[trigger] reg.key_bindings@[i].action
                            == binds@[i].action
                },
                Err(f) => {
                    &&& f.index < binds@.len()
                    &&& spec_parse_key(code_map@, binds@[f.index as int].pattern@) == Err::<
                        KeyCode,
                        BindError,
                    >(f.error)
                },
            },
    {
        match Self::read_keybinds(&code_map, binds) {
            Ok(key_bindings) => Ok(
                BindingRegistration { mouse_bindings: Vec::new(), key_bindings, code_map },
            ),
            Err(f) => Err(f),
        }
    }

    /// Resolve one pattern against this registry's key table.
    pub fn parse_key(&self, pattern: &Vec<u8>) -> (r: Result<KeyCode, BindError>)
        ensures
            r == spec_parse_key(self.code_map@, pattern@),
    {
        parse_key(&self.code_map, pattern)
    }

    /// Look one symbolic key name up in this registry's key table.
    pub fn to_key(&self, name: &Vec<u8>) -> (r: Option<u8>)
        ensures
            r == spec_to_key(self.code_map@, name@),
    {
        to_key(&self.code_map, name)
    }
}

} // verus!
