//! The input handler: computes the key grabs to install at startup,
//! maintains the pressed-key buffer, and fires the bound actions when a
//! grabbed chord arrives.

use vstd::prelude::*;

use crate::bindings::{BindingRegistration, KeyBinding, MOD_PRIMARY};
use crate::buffer::KeyBuffer;
use crate::events::WmAction;

verus! {

/// Whether a key binding fires for a press of `detail` while the server
/// reports the modifier state `state`: the binding's code must be among the
/// held codes, and every bit of its modifier mask must be held.
pub open spec fn binding_fires(b: KeyBinding, held: Set<usize>, state: u16) -> bool {
    held.contains(b.key.code as usize) && (state & b.key.mask) == b.key.mask
}

/// The actions a key press fires: one `InvokeAction` per matching binding,
/// in registry order, each at most once per press.
pub open spec fn spec_fired(binds: Seq<KeyBinding>, held: Set<usize>, state: u16) -> Seq<WmAction>
    decreases binds.len(),
{
    if binds.len() == 0 {
        Seq::empty()
    } else {
        let rest = spec_fired(binds.drop_first(), held, state);
        if binding_fires(binds[0], held, state) {
            seq![WmAction::InvokeAction { action: binds[0].action }] + rest
        } else {
            rest
        }
    }
}

/// Appending one binding extends the fired list at its end.
proof fn lemma_fired_push(binds: Seq<KeyBinding>, b: KeyBinding, held: Set<usize>, state: u16)
    ensures
        spec_fired(binds.push(b), held, state) == spec_fired(binds, held, state) + (if binding_fires(
            b,
            held,
            state,
        ) {
            seq![WmAction::InvokeAction { action: b.action }]
        } else {
            Seq::<WmAction>::empty()
        }),
    decreases binds.len(),
{
    let tail = if binding_fires(b, held, state) {
        seq![WmAction::InvokeAction { action: b.action }]
    } else {
        Seq::<WmAction>::empty()
    };
    assert(binds.push(b)[0] == if binds.len() == 0 {
        b
    } else {
        binds[0]
    });
    if binds.len() == 0 {
        assert(binds.push(b).drop_first() =~= Seq::<KeyBinding>::empty());
        assert(spec_fired(Seq::<KeyBinding>::empty(), held, state) == Seq::<WmAction>::empty());
        assert(spec_fired(binds.push(b), held, state) =~= spec_fired(binds, held, state) + tail);
    } else {
        assert(binds.push(b).drop_first() =~= binds.drop_first().push(b));
        lemma_fired_push(binds.drop_first(), b, held, state);
        assert(spec_fired(binds.push(b), held, state) =~= spec_fired(binds, held, state) + tail);
    }
}

/// The grab requests for one pass over the bindings, with `extra` or-ed
/// into each chord's modifier mask.
pub open spec fn spec_grab_pass(binds: Seq<KeyBinding>, extra: u16) -> Seq<WmAction> {
    binds.map(|i: int, b: KeyBinding| WmAction::GrabKey { mask: b.key.mask | extra, code: b.key.code })
}

/// Every grab the input handler installs: each binding once with its own
/// mask, and once more with the primary modifier or-ed in, so the chord
/// still fires when the server reports that extra modifier.
pub open spec fn spec_grab_list(binds: Seq<KeyBinding>) -> Seq<WmAction> {
    spec_grab_pass(binds, 0) + spec_grab_pass(binds, MOD_PRIMARY)
}

/// The input handler: the resolved binding registry, the pressed-key
/// buffer, and the root window the grabs are installed on.
pub struct WmInputHandler {
    pub root: u32,
    pub binding_registration: BindingRegistration,
    pub key_buffer: KeyBuffer,
}

impl WmInputHandler {
    /// A fresh handler: the given registry and an empty pressed-key buffer.
    pub fn new(root: u32, binding_registration: BindingRegistration) -> (r: WmInputHandler)
        ensures
            r.root == root,
            r.binding_registration == binding_registration,
            r.key_buffer@ == Set::<usize>::empty(),
    {
        WmInputHandler { root, binding_registration, key_buffer: KeyBuffer::new() }
    }

    /// The grab requests to install at startup, one per binding and
    /// extra-modifier combination. Each must succeed; a failed grab is a
    /// fatal startup error for the caller, since its chord could never
    /// fire.
    pub fn grab_key_input(&self) -> (r: Vec<WmAction>)
        ensures
            r@ == spec_grab_list(self.binding_registration.key_bindings@),
    {
        let binds = &self.binding_registration.key_bindings;
        let mut r: Vec<WmAction> = Vec::new();
        let mut i: usize = 0;
        while i < binds.len()
            invariant
                i <= binds@.len(),
                r@ == spec_grab_pass(binds@, 0).take(i as int),
            decreases binds@.len() - i,
        {
            let b = binds[i];
            r.push(WmAction::GrabKey { mask: b.key.mask, code: b.key.code });
            proof {
                assert(b.key.mask | 0 == b.key.mask) by (bit_vector);
                assert(r@ =~= spec_grab_pass(binds@, 0).take(i + 1));
            }
            i = i + 1;
        }
        proof {
            assert(spec_grab_pass(binds@, 0).take(i as int) =~= spec_grab_pass(binds@, 0));
        }
        let mut j: usize = 0;
        while j < binds.len()
            invariant
                j <= binds@.len(),
                r@ == spec_grab_pass(binds@, 0) + spec_grab_pass(binds@, MOD_PRIMARY).take(
                    j as int,
                ),
            decreases binds@.len() - j,
        {
            let b = binds[j];
            r.push(WmAction::GrabKey { mask: b.key.mask | MOD_PRIMARY, code: b.key.code });
            proof {
                assert(r@ =~= spec_grab_pass(binds@, 0) + spec_grab_pass(
                    binds@,
                    MOD_PRIMARY,
                ).take(j + 1));
            }
            j = j + 1;
        }
        proof {
            assert(spec_grab_pass(binds@, MOD_PRIMARY).take(j as int) =~= spec_grab_pass(
                binds@,
                MOD_PRIMARY,
            ));
        }
        r
    }

    /// A grabbed key went down: record it as held, then fire every binding
    /// whose chord is now satisfied, in registry order, once each.
    pub fn key_press(&mut self, detail: u8, state: u16) -> (r: Vec<WmAction>)
        ensures
            final(self).root == old(self).root,
            final(self).binding_registration == old(self).binding_registration,
            final(self).key_buffer@ == old(self).key_buffer@.insert(detail as usize),
            r@ == spec_fired(
                old(self).binding_registration.key_bindings@,
                old(self).key_buffer@.insert(detail as usize),
                state,
            ),
    {
        self.key_buffer.add_to_buffer(detail as usize);
        let ghost held = self.key_buffer@;
        let ghost binds_view = self.binding_registration.key_bindings@;
        let mut r: Vec<WmAction> = Vec::new();
        let mut i: usize = 0;
        proof {
            assert(binds_view.take(0) =~= Seq::<KeyBinding>::empty());
        }
        while i < self.binding_registration.key_bindings.len()
            invariant
                i <= binds_view.len(),
                binds_view == self.binding_registration.key_bindings@,
                held == self.key_buffer@,
                r@ == spec_fired(binds_view.take(i as int), held, state),
            decreases binds_view.len() - i,
        {
            let b = self.binding_registration.key_bindings[i];
            proof {
                binds_view.lemma_take_succ_push(i as int);
                lemma_fired_push(binds_view.take(i as int), b, held, state);
            }
            if self.key_buffer.is_buffered(b.key.code as usize) && (state & b.key.mask)
                == b.key.mask {
                r.push(WmAction::InvokeAction { action: b.action });
            }
            proof {
                assert(r@ =~= spec_fired(binds_view.take(i + 1), held, state));
            }
            i = i + 1;
        }
        proof {
            assert(binds_view.take(i as int) =~= binds_view);
        }
        r
    }

    /// A key came back up: drop it from the held set. Nothing fires on
    /// release.
    pub fn key_release(&mut self, detail: u8)
        ensures
            final(self).root == old(self).root,
            final(self).binding_registration == old(self).binding_registration,
            final(self).key_buffer@ == old(self).key_buffer@.remove(detail as usize),
    {
        self.key_buffer.remove_from_buffer(detail as usize);
    }

    /// A pointer button went down. The input handler holds no button state:
    /// drag handling is the layout strategy's, so nothing happens here.
    pub fn button_press(&self) -> (r: Vec<WmAction>)
        ensures
            r@ == Seq::<WmAction>::empty(),
    {
        Vec::new()
    }

    /// A pointer button came back up; as with presses, nothing happens
    /// here.
    pub fn button_release(&self) -> (r: Vec<WmAction>)
        ensures
            r@ == Seq::<WmAction>::empty(),
    {
        Vec::new()
    }
}

/// The floating layout's own input hooks, one per input event kind. Under
/// the floating strategy all key handling lives in the binding registry and
/// all button handling in the drag machine, so each hook is a documented
/// no-op that asks for nothing.
pub struct FloatingKeyPressHandler;

impl FloatingKeyPressHandler {
    /// Floating adds no behaviour on button press.
    pub fn button_press(&self, _detail: u8) -> (r: Vec<WmAction>)
        ensures
            r@ == Seq::<WmAction>::empty(),
    {
        Vec::new()
    }

    /// Floating adds no behaviour on button release.
    pub fn button_release(&self, _detail: u8) -> (r: Vec<WmAction>)
        ensures
            r@ == Seq::<WmAction>::empty(),
    {
        Vec::new()
    }

    /// Floating adds no behaviour on key press beyond the bindings.
    pub fn key_press(&self, _detail: u8) -> (r: Vec<WmAction>)
        ensures
            r@ == Seq::<WmAction>::empty(),
    {
        Vec::new()
    }

    /// Floating adds no behaviour on key release.
    pub fn key_release(&self, _detail: u8) -> (r: Vec<WmAction>)
        ensures
            r@ == Seq::<WmAction>::empty(),
    {
        Vec::new()
    }
}

} // verus!
