//! The mathematical model of the Desktop Entry encoder: the encoding state
//! (accumulated text, nesting level, pending key, key suppression) and the
//! recursive rendering rules for every value shape. The executable encoder is
//! proved to follow these rules exactly.

use vstd::prelude::*;

use crate::numfmt::dec_int;
use crate::numfmt::dec_nat;
use crate::value::Value;

verus! {

/// The state of one encoding run.
///
/// `out` is the append-only output accumulator; `level` is the nesting depth,
/// held between zero and three; `key` is the pending key slot, meaningful
/// only at depth two; `no_key` suppresses the pending-key prefix while the
/// elements of a sequence are written.
#[verifier::ext_equal]
pub ghost struct EncState {
    pub out: Seq<char>,
    pub level: int,
    pub key: Option<Seq<char>>,
    pub no_key: bool,
}

/// Why an encoding run failed.
pub ghost enum EncFailure {
    /// A composite asked for a nesting level beyond the third; `level` is the
    /// level that was requested.
    DepthExceeded { level: int },
    /// The submitted value cannot present itself in the value shape model,
    /// for instance a keyed-map entry whose key is not a plain string.
    Unrepresentable,
}

/// The state a fresh encoder starts from.
pub open spec fn init_state() -> EncState {
    EncState { out: Seq::empty(), level: 0, key: None, no_key: false }
}

/// The states the encoder actually moves through: the level stays within the
/// three-level ceiling, and from depth two on a pending key is always at hand.
pub open spec fn st_inv(st: EncState) -> bool {
    &&& 0 <= st.level <= 3
    &&& st.level >= 2 ==> st.key is Some
}

/// What holds of the state while the entries of one keyed map or record are
/// written: the enclosing composite has already opened its level, and a
/// depth-three entry can rely on the pending key of depth two.
pub open spec fn entries_inv(st: EncState) -> bool {
    &&& 1 <= st.level <= 3
    &&& st.level == 3 ==> st.key is Some
}

/// The text written immediately before a scalar token: at depth two, with the
/// pending-key prefix not suppressed, the key and an equals sign; nothing
/// otherwise. Encoding a value at depth two always happens after a key was
/// stored, so the fallback for a missing key is never reached.
pub open spec fn pre_val(st: EncState) -> Seq<char> {
    if st.level == 2 && !st.no_key {
        match st.key {
            Some(k) => k + seq!['='],
            None => Seq::empty(),
        }
    } else {
        Seq::empty()
    }
}

/// The state after one scalar token is written: the key prefix, if one is
/// due, then the token.
pub open spec fn emit(st: EncState, token: Seq<char>) -> EncState {
    EncState { out: st.out + pre_val(st) + token, ..st }
}

/// The token a boolean renders as.
pub open spec fn bool_token(b: bool) -> Seq<char> {
    if b {
        "true"@
    } else {
        "false"@
    }
}

/// The separator written before a sequence element: nothing when the output
/// still ends in the equals sign of the key prefix, meaning no element has
/// been written yet; a semicolon otherwise.
pub open spec fn elem_sep(out: Seq<char>) -> Seq<char> {
    if out.len() > 0 && out.last() == '=' {
        Seq::empty()
    } else {
        seq![';']
    }
}

/// The output after the decimal tokens of a byte string are written,
/// separated as sequence elements are.
pub open spec fn bytes_body(bs: Seq<u8>, out: Seq<char>) -> Seq<char>
    decreases bs.len(),
{
    if bs.len() == 0 {
        out
    } else {
        bytes_body(bs.drop_first(), out + elem_sep(out) + dec_nat(bs[0] as nat))
    }
}

/// The state after a byte string is written: the key prefix if one is due,
/// the decimal byte tokens under the sequence rule, and the trailing
/// semicolon unless the byte string is empty.
pub open spec fn enc_bytes(bs: Seq<u8>, st: EncState) -> EncState {
    let out1 = st.out + pre_val(st);
    let out2 = bytes_body(bs, out1);
    EncState { out: if bs.len() > 0 { out2 + seq![';'] } else { out2 }, ..st }
}

/// The state after a composite closes its level: the level drops by one, and
/// leaving depth two clears the pending key so it cannot leak into a sibling.
pub open spec fn close_level_state(st: EncState) -> EncState {
    EncState { level: st.level - 1, key: if st.level == 2 { None } else { st.key }, ..st }
}

/// The state after one map or record key is handled, by depth: at depth one
/// the key becomes a section header; at depth two it is stored as the pending
/// key and nothing is written yet; at depth three it is written as a
/// bracketed sub-key of the pending depth-two key, followed by the equals
/// sign.
pub open spec fn entry_key_open(st: EncState, k: Seq<char>) -> EncState {
    if st.level == 1 {
        EncState { out: st.out + seq!['['] + k + seq![']', '\n'], ..st }
    } else if st.level == 2 {
        EncState { key: Some(k), ..st }
    } else {
        let pk = match st.key {
            Some(p) => p,
            None => Seq::empty(),
        };
        EncState { out: st.out + pk + seq!['['] + k + seq![']', '='], ..st }
    }
}

/// The rendering of one value from a given state: the state that results, or
/// the failure that ends the whole run.
pub open spec fn enc_value(v: Value, st: EncState) -> Result<EncState, EncFailure>
    decreases v, 2int,
{
    match v {
        Value::Bool(b) => Ok(emit(st, bool_token(b))),
        Value::Int64(i) => Ok(emit(st, dec_int(i as int))),
        Value::UInt64(n) => Ok(emit(st, dec_nat(n as nat))),
        Value::Char(c) => Ok(emit(st, seq![c])),
        Value::Str(s) => Ok(emit(st, s@)),
        Value::Bytes(bs) => Ok(enc_bytes(bs@, st)),
        Value::Absent => Ok(emit(st, Seq::empty())),
        Value::Unit => Ok(emit(st, Seq::empty())),
        Value::NamedUnit(_name) => Ok(emit(st, Seq::empty())),
        Value::Present(inner) => enc_value(*inner, st),
        Value::UnitVariant(_enum_name, variant) => Ok(emit(st, variant@)),
        Value::NamedNewtype(_name, inner) => enc_value(*inner, st),
        Value::NewtypeVariant(_enum_name, variant, inner) => {
            let st1 = EncState { out: st.out + pre_val(st) + variant@ + seq!['='], no_key: true, ..st };
            match enc_value(*inner, st1) {
                Ok(st2) => Ok(EncState { no_key: st.no_key, ..st2 }),
                Err(f) => Err(f),
            }
        },
        Value::Sequence(items) => enc_seq_like(items@, st),
        Value::Tuple(items) => enc_seq_like(items@, st),
        Value::NamedTuple(_name, items) => enc_seq_like(items@, st),
        Value::TupleVariant(_enum_name, variant, items) => {
            let st1 = EncState {
                out: st.out + pre_val(st) + seq!['{'] + variant@ + seq![':', '['],
                no_key: true,
                ..st
            };
            match enc_items(items@, st1) {
                Ok(st2) => Ok(
                    EncState {
                        out: (if items@.len() > 0 {
                            st2.out + seq![';']
                        } else {
                            st2.out
                        }) + seq![']', '}'],
                        no_key: st.no_key,
                        ..st2
                    },
                ),
                Err(f) => Err(f),
            }
        },
        Value::Dict(pairs) => {
            if st.level >= 3 {
                Err(EncFailure::DepthExceeded { level: st.level + 1 })
            } else {
                match enc_pairs(pairs@, EncState { level: st.level + 1, ..st }) {
                    Ok(st2) => Ok(close_level_state(st2)),
                    Err(f) => Err(f),
                }
            }
        },
        Value::Struct(_name, fields) => {
            if st.level >= 3 {
                Err(EncFailure::DepthExceeded { level: st.level + 1 })
            } else {
                match enc_fields(fields@, EncState { level: st.level + 1, ..st }) {
                    Ok(st2) => Ok(close_level_state(st2)),
                    Err(f) => Err(f),
                }
            }
        },
        Value::StructVariant(_enum_name, variant, fields) => {
            let st1 = EncState { out: st.out + seq!['{'] + variant@ + seq![':', '{'], no_key: true, ..st };
            match enc_sv_fields(fields@, st1) {
                Ok(st2) => Ok(EncState { out: st2.out + seq!['}', '}'], no_key: st.no_key, ..st2 }),
                Err(f) => Err(f),
            }
        },
    }
}

/// The rendering of a sequence-like value: the key prefix if one is due, the
/// elements with the pending-key prefix suppressed, and the trailing
/// semicolon unless the sequence is empty, which renders as nothing at all.
pub open spec fn enc_seq_like(items: Seq<Value>, st: EncState) -> Result<EncState, EncFailure>
    decreases items, 1int,
{
    let st1 = EncState { out: st.out + pre_val(st), no_key: true, ..st };
    match enc_items(items, st1) {
        Ok(st2) => Ok(
            EncState {
                out: if items.len() > 0 { st2.out + seq![';'] } else { st2.out },
                no_key: st.no_key,
                ..st2
            },
        ),
        Err(f) => Err(f),
    }
}

/// The rendering of sequence elements, each preceded by its separator.
pub open spec fn enc_items(items: Seq<Value>, st: EncState) -> Result<EncState, EncFailure>
    decreases items, 0int,
{
    if items.len() == 0 {
        Ok(st)
    } else {
        let st1 = EncState { out: st.out + elem_sep(st.out), ..st };
        match enc_value(items[0], st1) {
            Ok(st2) => enc_items(items.drop_first(), st2),
            Err(f) => Err(f),
        }
    }
}

/// The rendering of the entries of a keyed map: every key must be a plain
/// string; each entry handles its key by depth, renders its value, and ends
/// its line.
pub open spec fn enc_pairs(pairs: Seq<(Value, Value)>, st: EncState) -> Result<
    EncState,
    EncFailure,
>
    decreases pairs, 0int,
{
    if pairs.len() == 0 {
        Ok(st)
    } else if !(1 <= st.level <= 3) {
        Err(EncFailure::DepthExceeded { level: st.level })
    } else {
        match pairs[0].0 {
            Value::Str(k) => {
                let st1 = entry_key_open(st, k@);
                match enc_value(pairs[0].1, st1) {
                    Ok(st2) => enc_pairs(
                        pairs.drop_first(),
                        EncState { out: st2.out + seq!['\n'], ..st2 },
                    ),
                    Err(f) => Err(f),
                }
            },
            _ => Err(EncFailure::Unrepresentable),
        }
    }
}

/// The rendering of the fields of a named record, exactly as map entries
/// whose keys are the field names.
pub open spec fn enc_fields(fields: Seq<(String, Value)>, st: EncState) -> Result<
    EncState,
    EncFailure,
>
    decreases fields, 0int,
{
    if fields.len() == 0 {
        Ok(st)
    } else if !(1 <= st.level <= 3) {
        Err(EncFailure::DepthExceeded { level: st.level })
    } else {
        let st1 = entry_key_open(st, fields[0].0@);
        match enc_value(fields[0].1, st1) {
            Ok(st2) => enc_fields(fields.drop_first(), EncState { out: st2.out + seq!['\n'], ..st2 }),
            Err(f) => Err(f),
        }
    }
}

/// The rendering of the fields of a record-shaped enum variant, written as
/// name-and-value pairs between the braces of the externally tagged form.
pub open spec fn enc_sv_fields(fields: Seq<(String, Value)>, st: EncState) -> Result<
    EncState,
    EncFailure,
>
    decreases fields, 0int,
{
    if fields.len() == 0 {
        Ok(st)
    } else {
        let st1 = EncState { out: st.out + fields[0].0@ + seq![':'], ..st };
        match enc_value(fields[0].1, st1) {
            Ok(st2) => enc_sv_fields(fields.drop_first(), st2),
            Err(f) => Err(f),
        }
    }
}

/// The whole encoding of one submitted value from a fresh state: the full
/// document text, or the failure that ended the run.
pub open spec fn spec_encode(v: Value) -> Result<Seq<char>, EncFailure> {
    match enc_value(v, init_state()) {
        Ok(st) => Ok(st.out),
        Err(f) => Err(f),
    }
}

} // verus!
