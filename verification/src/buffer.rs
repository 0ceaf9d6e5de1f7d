//! The pressed-key buffer: the set of currently-held physical key and
//! button codes, consulted to decide whether a binding's chord is held.

use vstd::prelude::*;

use crate::bindings::KeyCode;

verus! {

/// The set of currently-held physical key codes.
pub struct KeyBuffer {
    buffer: Vec<usize>,
}

impl View for KeyBuffer {
    type V = Set<usize>;

    closed spec fn view(&self) -> Set<usize> {
        self.buffer@.to_set()
    }
}

impl KeyBuffer {
    /// An empty buffer: no key is held.
    pub fn new() -> (r: Self)
        ensures
            r@ == Set::<usize>::empty(),
    {
        let r = KeyBuffer { buffer: Vec::new() };
        proof {
            assert(r.buffer@.to_set() =~= Set::<usize>::empty());
        }
        r
    }

    /// Whether `key` is currently held.
    pub fn is_buffered(&self, key: usize) -> (r: bool)
        ensures
            r == self@.contains(key),
    {
        let mut i: usize = 0;
        while i < self.buffer.len()
            invariant
                i <= self.buffer.len(),
                forall|k: int| 0 <= k < i ==> self.buffer@[k] != key,
            decreases self.buffer.len() - i,
        {
            if self.buffer[i] == key {
                proof {
                    assert(self.buffer@.contains(key));
                }
                return true;
            }
            i = i + 1;
        }
        proof {
            assert(!self.buffer@.contains(key));
        }
        false
    }

    /// Whether a chord is held: both the chord's modifier mask and its
    /// physical code are in the buffer, each read as a held code.
    pub fn is_pressed(&self, key_code: KeyCode) -> (r: bool)
        ensures
            r == (self@.contains(key_code.mask as usize) && self@.contains(
                key_code.code as usize,
            )),
    {
        self.is_buffered(key_code.mask as usize) && self.is_buffered(key_code.code as usize)
    }

    /// Record that `key` went down. Re-adding a held key changes nothing.
    pub fn add_to_buffer(&mut self, key: usize)
        ensures
            final(self)@ == old(self)@.insert(key),
    {
        if !self.is_buffered(key) {
            self.buffer.push(key);
            proof {
                old(self).buffer@.lemma_push_to_set_commute(key);
            }
        } else {
            proof {
                assert(self.buffer@.to_set() =~= old(self).buffer@.to_set().insert(key));
            }
        }
    }

    /// Record that `key` came up: every held occurrence of it is dropped.
    pub fn remove_from_buffer(&mut self, key: usize)
        ensures
            final(self)@ == old(self)@.remove(key),
    {
        broadcast use vstd::seq_lib::group_filter_ensures;

        let ghost not_key = |x: usize| x != key;
        let mut kept: Vec<usize> = Vec::new();
        let mut i: usize = 0;
        while i < self.buffer.len()
            invariant
                i <= self.buffer.len(),
                kept@ == self.buffer@.take(i as int).filter(not_key),
                not_key == (|x: usize| x != key),
            decreases self.buffer.len() - i,
        {
            let v = self.buffer[i];
            proof {
                self.buffer@.lemma_take_succ_push(i as int);
                self.buffer@.take(i as int).lemma_filter_push(v, not_key);
            }
            if v != key {
                kept.push(v);
            }
            i = i + 1;
        }
        proof {
            assert(self.buffer@.take(i as int) =~= self.buffer@);
        }
        self.buffer = kept;
        proof {
            let orig = old(self).buffer@;
            assert(self.buffer@ == orig.filter(not_key));
            assert(self.buffer@.to_set() =~= orig.to_set().remove(key)) by {
                assert forall|a: usize| self.buffer@.contains(a) implies orig.contains(a) && a
                    != key by {
                    orig.lemma_filter_contains_rev(not_key, a);
                    let w = self.buffer@.lemma_contains_to_index(a);
                    orig.lemma_filter_pred(not_key, w);
                }
                assert forall|a: usize| orig.contains(a) && a != key implies self.buffer@.contains(
                    a,
                ) by {
                    let w = orig.lemma_contains_to_index(a);
                    orig.lemma_filter_contains(not_key, w);
                }
            }
        }
    }
}

} // verus!
