//! Symbolic key-name resolution against the host key table, and the
//! binding-pattern resolver that turns "mod-mod-Key" text into a `KeyCode`.
//!
//! The key table is supplied by the host environment as a read-only list of
//! entries, one per physical key code, each carrying the symbolic names
//! (as ASCII bytes) that the key produces.

use vstd::prelude::*;

use crate::bindings::{spec_modifier_bit, modifier_bit, BindError, KeyCode};

verus! {

/// The pattern separator between modifier tokens and the key name: '-'.
pub const DASH: u8 = 45;

/// One entry of the host key table: a physical key code and the symbolic
/// names it carries.
#[derive(Debug)]
pub struct KeyMapping {
    pub code: u8,
    pub names: Vec<Vec<u8>>,
}

/// Whether one key-table entry carries the given symbolic name.
pub open spec fn entry_has_name(entry: KeyMapping, name: Seq<u8>) -> bool {
    exists|j: int| 0 <= j < entry.names@.len() && entry.names@[j]@ == name
}

/// The physical code of the first key-table entry that carries `name`,
/// or `None` when no entry does.
pub open spec fn spec_to_key(table: Seq<KeyMapping>, name: Seq<u8>) -> Option<u8>
    decreases table.len(),
{
    if table.len() == 0 {
        None
    } else if entry_has_name(table[0], name) {
        Some(table[0].code)
    } else {
        spec_to_key(table.drop_first(), name)
    }
}

/// Compare two byte strings for equality.
fn bytes_eq(a: &Vec<u8>, b: &Vec<u8>) -> (r: bool)
    ensures
        r == (a@ == b@),
{
    if a.len() != b.len() {
        return false;
    }
    let mut i: usize = 0;
    while i < a.len()
        invariant
            i <= a.len(),
            a.len() == b.len(),
            forall|k: int| 0 <= k < i ==> a@[k] == b@[k],
        decreases a.len() - i,
    {
        if a[i] != b[i] {
            return false;
        }
        i = i + 1;
    }
    proof {
        assert(a@ =~= b@);
    }
    true
}

/// Look a symbolic key name up in the host key table: the first entry that
/// carries the name wins, as the table's own order has it.
pub fn to_key(code_map: &Vec<KeyMapping>, name: &Vec<u8>) -> (r: Option<u8>)
    ensures
        r == spec_to_key(code_map@, name@),
{
    proof {
        assert(code_map@.skip(0) =~= code_map@);
    }
    let mut i: usize = 0;
    while i < code_map.len()
        invariant
            i <= code_map.len(),
            spec_to_key(code_map@, name@) == spec_to_key(code_map@.skip(i as int), name@),
        decreases code_map.len() - i,
    {
        let entry = &code_map[i];
        let mut j: usize = 0;
        while j < entry.names.len()
            invariant
                j <= entry.names.len(),
                i < code_map@.len(),
                *entry == code_map@[i as int],
                spec_to_key(code_map@, name@) == spec_to_key(code_map@.skip(i as int), name@),
                forall|k: int| 0 <= k < j ==> entry.names@[k]@ != name@,
            decreases entry.names.len() - j,
        {
            if bytes_eq(&entry.names[j], name) {
                proof {
                    assert(entry_has_name(code_map@[i as int], name@));
                    assert(code_map@.skip(i as int)[0] == code_map@[i as int]);
                    assert(spec_to_key(code_map@.skip(i as int), name@)
                        == Some(code_map@[i as int].code));
                }
                return Some(entry.code);
            }
            j = j + 1;
        }
        proof {
            assert(!entry_has_name(code_map@[i as int], name@));
            assert(code_map@.skip(i as int)[0] == code_map@[i as int]);
            assert(code_map@.skip(i as int).drop_first() =~= code_map@.skip(i + 1));
        }
        i = i + 1;
    }
    None
}

/// The position of the first separator in a pattern, or the pattern's
/// length when it has none.
pub open spec fn dash_pos(s: Seq<u8>) -> int
    decreases s.len(),
{
    if s.len() == 0 {
        0
    } else if s[0] == DASH {
        0
    } else {
        1 + dash_pos(s.drop_first())
    }
}

/// `dash_pos` points at the first separator: nothing before it is one, and
/// it lies within the pattern unless the pattern has no separator at all.
pub proof fn lemma_dash_pos(s: Seq<u8>)
    ensures
        0 <= dash_pos(s) <= s.len(),
        dash_pos(s) < s.len() ==> s[dash_pos(s)] == DASH,
        forall|k: int| 0 <= k < dash_pos(s) ==> s[k] != DASH,
    decreases s.len(),
{
    if s.len() == 0 {
    } else if s[0] == DASH {
    } else {
        lemma_dash_pos(s.drop_first());
        assert forall|k: int| 0 <= k < dash_pos(s) implies s[k] != DASH by {
            if k > 0 {
                assert(s.drop_first()[k - 1] != DASH);
            }
        }
    }
}

/// Any position with no separator before it, and a separator (or the end)
/// at it, is `dash_pos`.
pub proof fn lemma_dash_pos_unique(s: Seq<u8>, d: int)
    requires
        0 <= d <= s.len(),
        d < s.len() ==> s[d] == DASH,
        forall|k: int| 0 <= k < d ==> s[k] != DASH,
    ensures
        dash_pos(s) == d,
    decreases s.len(),
{
    if s.len() == 0 {
    } else if s[0] == DASH {
    } else {
        assert(d > 0);
        lemma_dash_pos_unique(s.drop_first(), d - 1);
    }
}

/// What a binding pattern resolves to. The pattern splits on the separator;
/// the final token is looked up as a key name in the table, every earlier
/// token must be a modifier token, and their mask bits are combined by
/// bitwise or.
pub open spec fn spec_parse_key(table: Seq<KeyMapping>, s: Seq<u8>) -> Result<KeyCode, BindError>
    decreases s.len(),
    via spec_parse_key_decreases
{
    let d = dash_pos(s);
    if d == s.len() {
        match spec_to_key(table, s) {
            Some(code) => Ok(KeyCode { mask: 0, code }),
            None => Err(BindError::UnknownKey),
        }
    } else {
        match spec_modifier_bit(s.take(d)) {
            None => Err(BindError::UnknownModifier),
            Some(bit) => match spec_parse_key(table, s.skip(d + 1)) {
                Ok(kc) => Ok(KeyCode { mask: bit | kc.mask, code: kc.code }),
                Err(e) => Err(e),
            },
        }
    }
}

#[via_fn]
proof fn spec_parse_key_decreases(table: Seq<KeyMapping>, s: Seq<u8>) {
    lemma_dash_pos(s);
}

/// Copy the bytes of `v` between `from` and `to`.
fn subvec(v: &Vec<u8>, from: usize, to: usize) -> (r: Vec<u8>)
    requires
        from <= to <= v@.len(),
    ensures
        r@ == v@.subrange(from as int, to as int),
{
    let mut r: Vec<u8> = Vec::new();
    let mut i: usize = from;
    while i < to
        invariant
            from <= i <= to <= v@.len(),
            r@ == v@.subrange(from as int, i as int),
        decreases to - i,
    {
        r.push(v[i]);
        proof {
            assert(r@ =~= v@.subrange(from as int, i + 1));
        }
        i = i + 1;
    }
    r
}

/// Resolve the part of `pattern` that starts at `start`.
fn parse_key_from(code_map: &Vec<KeyMapping>, pattern: &Vec<u8>, start: usize) -> (r: Result<
    KeyCode,
    BindError,
>)
    requires
        start <= pattern@.len(),
    ensures
        r == spec_parse_key(code_map@, pattern@.skip(start as int)),
    decreases pattern@.len() - start,
{
    let ghost rest = pattern@.skip(start as int);
    let mut i: usize = start;
    while i < pattern.len() && pattern[i as usize] != DASH
        invariant
            start <= i <= pattern@.len(),
            forall|k: int| start <= k < i ==> pattern@[k] != DASH,
        decreases pattern@.len() - i,
    {
        i = i + 1;
    }
    proof {
        assert forall|k: int| 0 <= k < i - start implies rest[k] != DASH by {
            assert(rest[k] == pattern@[start + k]);
        }
        if i < pattern@.len() {
            assert(rest[i - start] == pattern@[i as int]);
        }
        lemma_dash_pos_unique(rest, i - start);
    }
    if i == pattern.len() {
        let name = subvec(pattern, start, i);
        proof {
            assert(name@ =~= rest);
        }
        match to_key(code_map, &name) {
            Some(code) => Ok(KeyCode { mask: 0, code }),
            None => Err(BindError::UnknownKey),
        }
    } else {
        let tok = subvec(pattern, start, i);
        proof {
            assert(tok@ =~= rest.take(i - start));
        }
        match modifier_bit(tok.as_slice()) {
            None => Err(BindError::UnknownModifier),
            Some(bit) => {
                let sub = parse_key_from(code_map, pattern, i + 1);
                proof {
                    assert(pattern@.skip(i + 1) =~= rest.skip(i - start + 1));
                }
                match sub {
                    Ok(kc) => Ok(KeyCode { mask: bit | kc.mask, code: kc.code }),
                    Err(e) => Err(e),
                }
            },
        }
    }
}

/// Resolve a textual binding pattern: every token before the last must be a
/// modifier token (their bits are or-ed into the mask), and the last token
/// must name a key of the table.
pub fn parse_key(code_map: &Vec<KeyMapping>, pattern: &Vec<u8>) -> (r: Result<KeyCode, BindError>)
    ensures
        r == spec_parse_key(code_map@, pattern@),
{
    proof {
        assert(pattern@.skip(0) =~= pattern@);
    }
    parse_key_from(code_map, pattern, 0)
}

/// The tokens of a pattern: the parts between its separators, in order.
/// Always at least one token (the key name).
pub open spec fn pattern_tokens(s: Seq<u8>) -> Seq<Seq<u8>>
    decreases s.len(),
    via pattern_tokens_decreases
{
    let d = dash_pos(s);
    if d == s.len() {
        seq![s]
    } else {
        seq![s.take(d)] + pattern_tokens(s.skip(d + 1))
    }
}

#[via_fn]
proof fn pattern_tokens_decreases(s: Seq<u8>) {
    lemma_dash_pos(s);
}

/// Whether every token of a list is a known modifier token.
pub open spec fn all_mods_known(toks: Seq<Seq<u8>>) -> bool {
    forall|k: int| 0 <= k < toks.len() ==> spec_modifier_bit(toks[k]) is Some
}

/// The bitwise or of the mask bits of a list of modifier tokens
/// (an unknown token contributes nothing).
pub open spec fn mods_mask(toks: Seq<Seq<u8>>) -> u16
    decreases toks.len(),
{
    if toks.len() == 0 {
        0
    } else {
        (match spec_modifier_bit(toks[0]) {
            Some(bit) => bit,
            None => 0,
        }) | mods_mask(toks.drop_first())
    }
}

/// How a pattern resolves, stated over its token list: when every modifier
/// token is known and the key name is in the table, resolution succeeds with
/// the or of the modifier bits as the mask and the table's code for the key
/// name; an unknown modifier token fails with `UnknownModifier`, and an
/// unknown key name fails with `UnknownKey` — never silently.
pub proof fn lemma_parse_key_resolution(table: Seq<KeyMapping>, s: Seq<u8>)
    ensures
        pattern_tokens(s).len() >= 1,
        !all_mods_known(pattern_tokens(s).drop_last()) ==> spec_parse_key(table, s) == Err::<
            KeyCode,
            BindError,
        >(BindError::UnknownModifier),
        all_mods_known(pattern_tokens(s).drop_last()) ==> spec_parse_key(table, s) == (match
            spec_to_key(table, pattern_tokens(s).last()) {
            Some(code) => Ok(KeyCode { mask: mods_mask(pattern_tokens(s).drop_last()), code }),
            None => Err(BindError::UnknownKey),
        }),
    decreases s.len(),
{
    lemma_dash_pos(s);
    let d = dash_pos(s);
    let toks = pattern_tokens(s);
    if d == s.len() {
        assert(toks =~= seq![s]);
        assert(toks.drop_last() =~= Seq::<Seq<u8>>::empty());
    } else {
        let t = s.take(d);
        let rest = s.skip(d + 1);
        lemma_parse_key_resolution(table, rest);
        let rtoks = pattern_tokens(rest);
        assert(toks == seq![t] + rtoks);
        assert(toks.last() == rtoks.last());
        let mods = toks.drop_last();
        assert(mods =~= seq![t] + rtoks.drop_last());
        assert(mods[0] == t);
        match spec_modifier_bit(t) {
            None => {
                assert(!all_mods_known(mods));
            },
            Some(bit) => {
                assert(all_mods_known(mods) <==> all_mods_known(rtoks.drop_last())) by {
                    if all_mods_known(rtoks.drop_last()) {
                        assert forall|k: int|
                            0 <= k < mods.len() implies spec_modifier_bit(mods[k]) is Some by {
                            if k > 0 {
                                assert(mods[k] == rtoks.drop_last()[k - 1]);
                            }
                        }
                    } else {
                        let bad = choose|k: int|
                            0 <= k < rtoks.drop_last().len() && !(spec_modifier_bit(
                                rtoks.drop_last()[k],
                            ) is Some);
                        assert(mods[bad + 1] == rtoks.drop_last()[bad]);
                    }
                }
                assert(mods_mask(mods) == bit | mods_mask(rtoks.drop_last())) by {
                    assert(mods.drop_first() =~= rtoks.drop_last());
                }
            },
        }
    }
}

} // verus!
