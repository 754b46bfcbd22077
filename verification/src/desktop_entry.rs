//! The Desktop Entry encoder: a level tracker, an append-only output
//! accumulator, and a recursive descent over a submitted [`Value`] that
//! either produces the whole document text or fails with a structural error.

pub mod laws;
pub mod model;

use vstd::prelude::*;
use vstd::string::StrSliceExecFns;
use vstd::string::StringExecFns;

use crate::desktop_entry::model::bool_token;
use crate::desktop_entry::model::bytes_body;
use crate::desktop_entry::model::close_level_state;
use crate::desktop_entry::model::elem_sep;
use crate::desktop_entry::model::emit;
use crate::desktop_entry::model::enc_bytes;
use crate::desktop_entry::model::enc_fields;
use crate::desktop_entry::model::enc_items;
use crate::desktop_entry::model::enc_pairs;
use crate::desktop_entry::model::enc_seq_like;
use crate::desktop_entry::model::enc_sv_fields;
use crate::desktop_entry::model::enc_value;
use crate::desktop_entry::model::entries_inv;
use crate::desktop_entry::model::entry_key_open;
use crate::desktop_entry::model::init_state;
use crate::desktop_entry::model::pre_val;
use crate::desktop_entry::model::spec_encode;
use crate::desktop_entry::model::st_inv;
use crate::desktop_entry::model::EncFailure;
use crate::desktop_entry::model::EncState;
use crate::numfmt::i64_to_string;
use crate::numfmt::u64_to_string;
use crate::value::Value;

verus! {

/// Why an encoding call failed.
#[derive(Debug)]
pub enum Error {
    /// A composite asked for a nesting level beyond the third; `level` is the
    /// level that was requested. The format has exactly three meaningful
    /// levels, and this ceiling is hard: the run aborts at once.
    StructuralDepthExceeded { level: u8 },
    /// The submitted value cannot present itself in the value shape model.
    Custom(String),
}

/// Whether an executable error value reports the failure the model names.
pub open spec fn err_matches(e: Error, f: EncFailure) -> bool {
    match f {
        EncFailure::DepthExceeded { level } => e matches Error::StructuralDepthExceeded {
            level: l,
        } && l as int == level,
        EncFailure::Unrepresentable => e matches Error::Custom(_),
    }
}

/// The nesting-level state machine: a depth between zero and three, and the
/// single pending-key slot that is meaningful only at depth two.
pub struct LevelTracker {
    pub level: u8,
    pub key_name: Option<String>,
}

impl LevelTracker {
    /// A fresh tracker at the root, with no pending key.
    pub fn new() -> (t: Self)
        ensures
            t.level == 0,
            t.key_name is None,
    {
        Self { level: 0, key_name: None }
    }

    /// Opens one nesting level and reports the new depth. The three-level
    /// ceiling is the caller's to enforce before opening.
    pub fn open_level(&mut self) -> (l: u8)
        requires
            old(self).level < 3,
        ensures
            final(self).level == old(self).level + 1,
            final(self).key_name == old(self).key_name,
            l == final(self).level,
    {
        self.level = self.level + 1;
        self.level
    }

    /// Closes one nesting level and reports the depth that was left. Leaving
    /// depth two clears the pending key, so it cannot leak into a sibling.
    pub fn close_level(&mut self) -> (l: u8)
        requires
            old(self).level >= 1,
        ensures
            final(self).level == old(self).level - 1,
            final(self).key_name == (if old(self).level == 2 {
                Option::<String>::None
            } else {
                old(self).key_name
            }),
            l == old(self).level,
    {
        if self.level == 2 {
            self.key_name = None;
        }
        let res = self.level;
        self.level = self.level - 1;
        res
    }

    /// The current depth.
    pub fn get_level(&self) -> (l: u8)
        ensures
            l == self.level,
    {
        self.level
    }

    /// The pending key, if one is stored.
    pub fn get_key(&self) -> (k: &Option<String>)
        ensures
            *k == self.key_name,
    {
        &self.key_name
    }

    /// Stores the pending key for the value that follows at depth two.
    pub fn set_key(&mut self, key: String)
        ensures
            final(self).level == old(self).level,
            final(self).key_name == Some(key),
    {
        self.key_name = Some(key);
    }
}

/// One encoding run: the output accumulator, the level tracker, and the flag
/// that suppresses the pending-key prefix while sequence elements are
/// written. One serializer serves exactly one call and is then discarded.
pub struct Serializer {
    pub output: String,
    pub level: LevelTracker,
    pub disable_write_key: bool,
}

impl View for Serializer {
    type V = EncState;

    open spec fn view(&self) -> EncState {
        EncState {
            out: self.output@,
            level: self.level.level as int,
            key: match self.level.key_name {
                Some(k) => Some(k@),
                None => None,
            },
            no_key: self.disable_write_key,
        }
    }
}

/// Whether the accumulated output still ends in the equals sign of a key
/// prefix, meaning no sequence element has been written yet.
fn ends_with_eq(s: &String) -> (r: bool)
    ensures
        r == (s@.len() > 0 && s@.last() == '='),
{
    let n = s.as_str().unicode_len();
    if n == 0 {
        false
    } else {
        s.as_str().get_char(n - 1) == '='
    }
}

impl Serializer {
    /// Writes the pending-key prefix if one is due: at depth two, with the
    /// prefix not suppressed, the stored key and an equals sign.
    pub fn write_pre_val(&mut self)
        requires
            old(self)@.level == 2 && !old(self)@.no_key ==> old(self)@.key is Some,
        ensures
            final(self)@ == (EncState { out: old(self)@.out + pre_val(old(self)@), ..old(self)@ }),
    {
        if self.level.get_level() == 2 && !self.disable_write_key {
            match &self.level.key_name {
                Some(k) => {
                    self.output.append(k.as_str());
                },
                None => {
                    proof {
                        assert(false);
                    }
                },
            }
            self.output.append("=");
            proof {
                reveal_strlit("=");
                assert("="@ =~= seq!['=']);
                assert(self@.out =~= old(self)@.out + pre_val(old(self)@));
                assert(self@ =~= (EncState {
                    out: old(self)@.out + pre_val(old(self)@),
                    ..old(self)@
                }));
            }
        } else {
            proof {
                assert(self@.out =~= old(self)@.out + pre_val(old(self)@));
                assert(self@ =~= (EncState {
                    out: old(self)@.out + pre_val(old(self)@),
                    ..old(self)@
                }));
            }
        }
    }

    /// Writes a boolean as its literal token, after the key prefix if one is
    /// due.
    pub fn serialize_bool(&mut self, v: bool)
        requires
            old(self)@.level == 2 && !old(self)@.no_key ==> old(self)@.key is Some,
        ensures
            final(self)@ == emit(old(self)@, bool_token(v)),
    {
        self.write_pre_val();
        if v {
            self.output.append("true");
        } else {
            self.output.append("false");
        }
        proof {
            assert(self@ =~= emit(old(self)@, bool_token(v)));
        }
    }

    /// Writes a signed number as its decimal token.
    pub fn serialize_i64(&mut self, v: i64)
        requires
            old(self)@.level == 2 && !old(self)@.no_key ==> old(self)@.key is Some,
        ensures
            final(self)@ == emit(old(self)@, crate::numfmt::dec_int(v as int)),
    {
        self.write_pre_val();
        let t = i64_to_string(v);
        self.output.append(t.as_str());
        proof {
            assert(self@ =~= emit(old(self)@, crate::numfmt::dec_int(v as int)));
        }
    }

    /// Writes an unsigned number as its decimal token.
    pub fn serialize_u64(&mut self, v: u64)
        requires
            old(self)@.level == 2 && !old(self)@.no_key ==> old(self)@.key is Some,
        ensures
            final(self)@ == emit(old(self)@, crate::numfmt::dec_nat(v as nat)),
    {
        self.write_pre_val();
        let t = u64_to_string(v);
        self.output.append(t.as_str());
        proof {
            assert(self@ =~= emit(old(self)@, crate::numfmt::dec_nat(v as nat)));
        }
    }

    /// Writes one character as its own token.
    pub fn serialize_char(&mut self, v: char)
        requires
            old(self)@.level == 2 && !old(self)@.no_key ==> old(self)@.key is Some,
        ensures
            final(self)@ == emit(old(self)@, seq![v]),
    {
        self.write_pre_val();
        self.output.push(v);
        proof {
            assert(self@.out =~= old(self)@.out + pre_val(old(self)@) + seq![v]);
            assert(self@ =~= emit(old(self)@, seq![v]));
        }
    }

    /// Writes a string as a bare token. Characters the format reserves are
    /// not escaped; that limitation is the caller's to mind.
    pub fn serialize_str(&mut self, v: &str)
        requires
            old(self)@.level == 2 && !old(self)@.no_key ==> old(self)@.key is Some,
        ensures
            final(self)@ == emit(old(self)@, v@),
    {
        self.write_pre_val();
        self.output.append(v);
        proof {
            assert(self@ =~= emit(old(self)@, v@));
        }
    }

    /// Writes the empty token: nothing follows the key prefix.
    pub fn serialize_unit(&mut self)
        requires
            old(self)@.level == 2 && !old(self)@.no_key ==> old(self)@.key is Some,
        ensures
            final(self)@ == emit(old(self)@, Seq::empty()),
    {
        self.write_pre_val();
        proof {
            assert(self@.out =~= old(self)@.out + pre_val(old(self)@) + Seq::<char>::empty());
            assert(self@ =~= emit(old(self)@, Seq::empty()));
        }
    }

    /// An absent optional renders as the empty token.
    pub fn serialize_none(&mut self)
        requires
            old(self)@.level == 2 && !old(self)@.no_key ==> old(self)@.key is Some,
        ensures
            final(self)@ == emit(old(self)@, Seq::empty()),
    {
        self.serialize_unit();
    }

    /// A named value that carries no data renders as the empty token.
    pub fn serialize_unit_struct(&mut self, _name: &str)
        requires
            old(self)@.level == 2 && !old(self)@.no_key ==> old(self)@.key is Some,
        ensures
            final(self)@ == emit(old(self)@, Seq::empty()),
    {
        self.serialize_unit();
    }

    /// A unit variant renders as its bare variant name.
    pub fn serialize_unit_variant(&mut self, variant: &str)
        requires
            old(self)@.level == 2 && !old(self)@.no_key ==> old(self)@.key is Some,
        ensures
            final(self)@ == emit(old(self)@, variant@),
    {
        self.serialize_str(variant);
    }

    /// Writes a byte string as the decimal tokens of its bytes under the
    /// sequence rule: separators between tokens and a trailing semicolon
    /// unless there are no bytes at all.
    pub fn serialize_bytes(&mut self, v: &Vec<u8>)
        requires
            old(self)@.level == 2 && !old(self)@.no_key ==> old(self)@.key is Some,
        ensures
            final(self)@ == enc_bytes(v@, old(self)@),
    {
        self.write_pre_val();
        let ghost out1 = self@.out;
        proof {
            assert(v@.skip(0) =~= v@);
        }
        let mut i: usize = 0;
        while i < v.len()
            invariant
                0 <= i <= v@.len(),
                self@.level == old(self)@.level,
                self@.key == old(self)@.key,
                self@.no_key == old(self)@.no_key,
                bytes_body(v@, out1) == bytes_body(v@.skip(i as int), self@.out),
            decreases v@.len() - i,
        {
            let ghost pre = self@.out;
            if !ends_with_eq(&self.output) {
                self.output.append(";");
                proof {
                    reveal_strlit(";");
                    assert(";"@ =~= seq![';']);
                }
            }
            proof {
                assert(self@.out =~= pre + elem_sep(pre));
            }
            let t = u64_to_string(v[i] as u64);
            self.output.append(t.as_str());
            proof {
                assert(v@.skip(i as int)[0] == v@[i as int]);
                assert(v@.skip(i as int).drop_first() =~= v@.skip(i as int + 1));
                assert(self@.out =~= pre + elem_sep(pre) + crate::numfmt::dec_nat(v@[i as int] as nat));
            }
            i += 1;
        }
        proof {
            assert(v@.skip(v@.len() as int) =~= Seq::<u8>::empty());
        }
        if v.len() > 0 {
            self.output.append(";");
            proof {
                reveal_strlit(";");
                assert(";"@ =~= seq![';']);
            }
        }
        proof {
            assert(self@ =~= enc_bytes(v@, old(self)@));
        }
    }

    /// Renders one value from the current state, following the model's rules
    /// exactly. On failure only the reported error is meaningful; the caller
    /// discards the run.
    pub fn encode_value(&mut self, v: &Value) -> (r: Result<(), Error>)
        requires
            st_inv(old(self)@),
        ensures
            match enc_value(*v, old(self)@) {
                Ok(st) => r is Ok && final(self)@ == st,
                Err(f) => r is Err && err_matches(r->Err_0, f),
            },
            r is Ok ==> st_inv(final(self)@) && final(self)@.level == old(self)@.level
                && final(self)@.no_key == old(self)@.no_key
                && (old(self)@.level >= 2 ==> final(self)@.key == old(self)@.key),
        decreases v, 2int,
    {
        match v {
            Value::Bool(b) => {
                self.serialize_bool(*b);
                Ok(())
            },
            Value::Int64(i) => {
                self.serialize_i64(*i);
                Ok(())
            },
            Value::UInt64(n) => {
                self.serialize_u64(*n);
                Ok(())
            },
            Value::Char(c) => {
                self.serialize_char(*c);
                Ok(())
            },
            Value::Str(s) => {
                self.serialize_str(s.as_str());
                Ok(())
            },
            Value::Bytes(bs) => {
                self.serialize_bytes(bs);
                Ok(())
            },
            Value::Absent => {
                self.serialize_none();
                Ok(())
            },
            Value::Unit => {
                self.serialize_unit();
                Ok(())
            },
            Value::NamedUnit(name) => {
                self.serialize_unit_struct(name.as_str());
                Ok(())
            },
            Value::Present(inner) => self.encode_value(&**inner),
            Value::UnitVariant(_enum_name, variant) => {
                self.serialize_unit_variant(variant.as_str());
                Ok(())
            },
            Value::NamedNewtype(_name, inner) => self.encode_value(&**inner),
            Value::NewtypeVariant(_enum_name, variant, inner) => {
                self.write_pre_val();
                self.output.append(variant.as_str());
                self.output.append("=");
                let saved = self.disable_write_key;
                self.disable_write_key = true;
                proof {
                    reveal_strlit("=");
                    assert("="@ =~= seq!['=']);
                    assert(self@ =~= (EncState {
                        out: old(self)@.out + pre_val(old(self)@) + variant@ + seq!['='],
                        no_key: true,
                        ..old(self)@
                    }));
                }
                match self.encode_value(&**inner) {
                    Ok(()) => {
                        self.disable_write_key = saved;
                        Ok(())
                    },
                    Err(e) => Err(e),
                }
            },
            Value::Sequence(items) => self.encode_seq_like(items),
            Value::Tuple(items) => self.encode_seq_like(items),
            Value::NamedTuple(_name, items) => self.encode_seq_like(items),
            Value::TupleVariant(_enum_name, variant, items) => {
                self.write_pre_val();
                self.output.append("{");
                self.output.append(variant.as_str());
                self.output.append(":[");
                let saved = self.disable_write_key;
                self.disable_write_key = true;
                proof {
                    reveal_strlit("{");
                    reveal_strlit(":[");
                    assert("{"@ =~= seq!['{']);
                    assert(":["@ =~= seq![':', '[']);
                    assert(self@ =~= (EncState {
                        out: old(self)@.out + pre_val(old(self)@) + seq!['{'] + variant@ + seq![
                            ':',
                            '[',
                        ],
                        no_key: true,
                        ..old(self)@
                    }));
                }
                match self.encode_elements(items) {
                    Ok(()) => {
                        if items.len() > 0 {
                            self.output.append(";");
                        }
                        self.output.append("]}");
                        self.disable_write_key = saved;
                        proof {
                            reveal_strlit(";");
                            reveal_strlit("]}");
                            assert(";"@ =~= seq![';']);
                            assert("]}"@ =~= seq![']', '}']);
                            assert(self@ =~= (match enc_value(*v, old(self)@) {
                                Ok(st) => st,
                                Err(_) => self@,
                            }));
                        }
                        Ok(())
                    },
                    Err(e) => Err(e),
                }
            },
            Value::Dict(pairs) => {
                if self.level.get_level() == 3 {
                    return Err(Error::StructuralDepthExceeded { level: 4 });
                }
                self.level.open_level();
                proof {
                    assert(self@ =~= (EncState { level: old(self)@.level + 1, ..old(self)@ }));
                }
                match self.encode_pairs(pairs) {
                    Ok(()) => {
                        let ghost st2 = self@;
                        self.level.close_level();
                        proof {
                            assert(self@ =~= close_level_state(st2));
                        }
                        Ok(())
                    },
                    Err(e) => Err(e),
                }
            },
            Value::Struct(_name, fields) => {
                if self.level.get_level() == 3 {
                    return Err(Error::StructuralDepthExceeded { level: 4 });
                }
                self.level.open_level();
                proof {
                    assert(self@ =~= (EncState { level: old(self)@.level + 1, ..old(self)@ }));
                }
                match self.encode_fields(fields) {
                    Ok(()) => {
                        let ghost st2 = self@;
                        self.level.close_level();
                        proof {
                            assert(self@ =~= close_level_state(st2));
                        }
                        Ok(())
                    },
                    Err(e) => Err(e),
                }
            },
            Value::StructVariant(_enum_name, variant, fields) => {
                self.output.append("{");
                self.output.append(variant.as_str());
                self.output.append(":{");
                let saved = self.disable_write_key;
                self.disable_write_key = true;
                proof {
                    reveal_strlit("{");
                    reveal_strlit(":{");
                    assert("{"@ =~= seq!['{']);
                    assert(":{"@ =~= seq![':', '{']);
                    assert(self@ =~= (EncState {
                        out: old(self)@.out + seq!['{'] + variant@ + seq![':', '{'],
                        no_key: true,
                        ..old(self)@
                    }));
                }
                match self.encode_sv_fields(fields) {
                    Ok(()) => {
                        self.output.append("}}");
                        self.disable_write_key = saved;
                        proof {
                            reveal_strlit("}}");
                            assert("}}"@ =~= seq!['}', '}']);
                            assert(self@ =~= (match enc_value(*v, old(self)@) {
                                Ok(st) => st,
                                Err(_) => self@,
                            }));
                        }
                        Ok(())
                    },
                    Err(e) => Err(e),
                }
            },
        }
    }

    /// Renders a sequence-like composite: the key prefix if one is due, the
    /// elements with the prefix suppressed, and the trailing semicolon unless
    /// there are no elements at all.
    fn encode_seq_like(&mut self, items: &Vec<Value>) -> (r: Result<(), Error>)
        requires
            st_inv(old(self)@),
        ensures
            match enc_seq_like(items@, old(self)@) {
                Ok(st) => r is Ok && final(self)@ == st,
                Err(f) => r is Err && err_matches(r->Err_0, f),
            },
            r is Ok ==> st_inv(final(self)@) && final(self)@.level == old(self)@.level
                && final(self)@.no_key == old(self)@.no_key
                && (old(self)@.level >= 2 ==> final(self)@.key == old(self)@.key),
        decreases items@, 1int,
    {
        self.write_pre_val();
        let saved = self.disable_write_key;
        self.disable_write_key = true;
        proof {
            assert(self@ =~= (EncState {
                out: old(self)@.out + pre_val(old(self)@),
                no_key: true,
                ..old(self)@
            }));
        }
        match self.encode_elements(items) {
            Ok(()) => {
                if items.len() > 0 {
                    self.output.append(";");
                    proof {
                        reveal_strlit(";");
                        assert(";"@ =~= seq![';']);
                    }
                }
                self.disable_write_key = saved;
                proof {
                    assert(self@ =~= (match enc_seq_like(items@, old(self)@) {
                        Ok(st) => st,
                        Err(_) => self@,
                    }));
                }
                Ok(())
            },
            Err(e) => Err(e),
        }
    }

    /// Renders sequence elements in order, each preceded by its separator.
    fn encode_elements(&mut self, items: &Vec<Value>) -> (r: Result<(), Error>)
        requires
            st_inv(old(self)@),
        ensures
            match enc_items(items@, old(self)@) {
                Ok(st) => r is Ok && final(self)@ == st,
                Err(f) => r is Err && err_matches(r->Err_0, f),
            },
            r is Ok ==> st_inv(final(self)@) && final(self)@.level == old(self)@.level
                && final(self)@.no_key == old(self)@.no_key
                && (old(self)@.level >= 2 ==> final(self)@.key == old(self)@.key),
        decreases items@, 0int,
    {
        let ghost st0 = self@;
        proof {
            assert(items@.skip(0) =~= items@);
        }
        let mut i: usize = 0;
        while i < items.len()
            invariant
                0 <= i <= items@.len(),
                st_inv(self@),
                self@.level == st0.level,
                self@.no_key == st0.no_key,
                st0.level >= 2 ==> self@.key == st0.key,
                st0 == old(self)@,
                enc_items(items@, st0) == enc_items(items@.skip(i as int), self@),
            decreases items@.len() - i,
        {
            let ghost pre = self@;
            if !ends_with_eq(&self.output) {
                self.output.append(";");
                proof {
                    reveal_strlit(";");
                    assert(";"@ =~= seq![';']);
                }
            }
            proof {
                assert(self@ =~= (EncState { out: pre.out + elem_sep(pre.out), ..pre }));
                assert(items@.skip(i as int)[0] == items@[i as int]);
                assert(decreases_to!(items@ => items@[i as int]));
            }
            match self.encode_value(&items[i]) {
                Ok(()) => {
                    proof {
                        assert(items@.skip(i as int).drop_first() =~= items@.skip(i as int + 1));
                    }
                    i += 1;
                },
                Err(e) => {
                    return Err(e);
                },
            }
        }
        proof {
            assert(items@.skip(items@.len() as int) =~= Seq::<Value>::empty());
        }
        Ok(())
    }

    /// Renders the entries of a keyed map: a plain-string key handled by
    /// depth, the value, and the end of the entry's line. A key of any other
    /// shape ends the run.
    fn encode_pairs(&mut self, pairs: &Vec<(Value, Value)>) -> (r: Result<(), Error>)
        requires
            entries_inv(old(self)@),
        ensures
            match enc_pairs(pairs@, old(self)@) {
                Ok(st) => r is Ok && final(self)@ == st,
                Err(f) => r is Err && err_matches(r->Err_0, f),
            },
            r is Ok ==> entries_inv(final(self)@) && final(self)@.level == old(self)@.level
                && final(self)@.no_key == old(self)@.no_key
                && (old(self)@.level == 3 ==> final(self)@.key == old(self)@.key),
        decreases pairs@, 0int,
    {
        let ghost st0 = self@;
        proof {
            assert(pairs@.skip(0) =~= pairs@);
        }
        let mut i: usize = 0;
        while i < pairs.len()
            invariant
                0 <= i <= pairs@.len(),
                entries_inv(self@),
                self@.level == st0.level,
                self@.no_key == st0.no_key,
                st0.level == 3 ==> self@.key == st0.key,
                st0 == old(self)@,
                enc_pairs(pairs@, st0) == enc_pairs(pairs@.skip(i as int), self@),
            decreases pairs@.len() - i,
        {
            let ghost pre = self@;
            proof {
                assert(pairs@.skip(i as int)[0] == pairs@[i as int]);
            }
            let pair = &pairs[i];
            match &pair.0 {
                Value::Str(k) => {
                    let lvl = self.level.get_level();
                    if lvl == 1 {
                        self.output.append("[");
                        self.output.append(k.as_str());
                        self.output.append("]\n");
                        proof {
                            reveal_strlit("[");
                            reveal_strlit("]\n");
                            assert("["@ =~= seq!['[']);
                            assert("]\n"@ =~= seq![']', '\n']);
                            assert(self@ =~= entry_key_open(pre, k@));
                        }
                    } else if lvl == 2 {
                        self.level.set_key(k.clone());
                        proof {
                            assert(self@ =~= entry_key_open(pre, k@));
                        }
                    } else {
                        match &self.level.key_name {
                            Some(pk) => {
                                self.output.append(pk.as_str());
                            },
                            None => {
                                proof {
                                    assert(false);
                                }
                            },
                        }
                        self.output.append("[");
                        self.output.append(k.as_str());
                        self.output.append("]=");
                        proof {
                            reveal_strlit("[");
                            reveal_strlit("]=");
                            assert("["@ =~= seq!['[']);
                            assert("]="@ =~= seq![']', '=']);
                            assert(self@ =~= entry_key_open(pre, k@));
                        }
                    }
                    proof {
                        assert(st_inv(self@));
                        assert(decreases_to!(pairs@ => pairs@[i as int].1));
                    }
                    let ghost st1 = self@;
                    match self.encode_value(&pair.1) {
                        Ok(()) => {
                            self.output.append("\n");
                            proof {
                                reveal_strlit("\n");
                                assert("\n"@ =~= seq!['\n']);
                                assert(pairs@.skip(i as int).drop_first() =~= pairs@.skip(
                                    i as int + 1,
                                ));
                            }
                            i += 1;
                        },
                        Err(e) => {
                            return Err(e);
                        },
                    }
                },
                _ => {
                    return Err(
                        Error::Custom(String::from_str("map keys must be plain strings")),
                    );
                },
            }
        }
        proof {
            assert(pairs@.skip(pairs@.len() as int) =~= Seq::<(Value, Value)>::empty());
        }
        Ok(())
    }

    /// Renders the fields of a named record, exactly as map entries whose
    /// keys are the field names.
    fn encode_fields(&mut self, fields: &Vec<(String, Value)>) -> (r: Result<(), Error>)
        requires
            entries_inv(old(self)@),
        ensures
            match enc_fields(fields@, old(self)@) {
                Ok(st) => r is Ok && final(self)@ == st,
                Err(f) => r is Err && err_matches(r->Err_0, f),
            },
            r is Ok ==> entries_inv(final(self)@) && final(self)@.level == old(self)@.level
                && final(self)@.no_key == old(self)@.no_key
                && (old(self)@.level == 3 ==> final(self)@.key == old(self)@.key),
        decreases fields@, 0int,
    {
        let ghost st0 = self@;
        proof {
            assert(fields@.skip(0) =~= fields@);
        }
        let mut i: usize = 0;
        while i < fields.len()
            invariant
                0 <= i <= fields@.len(),
                entries_inv(self@),
                self@.level == st0.level,
                self@.no_key == st0.no_key,
                st0.level == 3 ==> self@.key == st0.key,
                st0 == old(self)@,
                enc_fields(fields@, st0) == enc_fields(fields@.skip(i as int), self@),
            decreases fields@.len() - i,
        {
            let ghost pre = self@;
            proof {
                assert(fields@.skip(i as int)[0] == fields@[i as int]);
            }
            let field = &fields[i];
            let k = &field.0;
            let lvl = self.level.get_level();
            if lvl == 1 {
                self.output.append("[");
                self.output.append(k.as_str());
                self.output.append("]\n");
                proof {
                    reveal_strlit("[");
                    reveal_strlit("]\n");
                    assert("["@ =~= seq!['[']);
                    assert("]\n"@ =~= seq![']', '\n']);
                    assert(self@ =~= entry_key_open(pre, k@));
                }
            } else if lvl == 2 {
                self.level.set_key(k.clone());
                proof {
                    assert(self@ =~= entry_key_open(pre, k@));
                }
            } else {
                match &self.level.key_name {
                    Some(pk) => {
                        self.output.append(pk.as_str());
                    },
                    None => {
                        proof {
                            assert(false);
                        }
                    },
                }
                self.output.append("[");
                self.output.append(k.as_str());
                self.output.append("]=");
                proof {
                    reveal_strlit("[");
                    reveal_strlit("]=");
                    assert("["@ =~= seq!['[']);
                    assert("]="@ =~= seq![']', '=']);
                    assert(self@ =~= entry_key_open(pre, k@));
                }
            }
            proof {
                assert(st_inv(self@));
                assert(decreases_to!(fields@ => fields@[i as int].1));
            }
            match self.encode_value(&field.1) {
                Ok(()) => {
                    self.output.append("\n");
                    proof {
                        reveal_strlit("\n");
                        assert("\n"@ =~= seq!['\n']);
                        assert(fields@.skip(i as int).drop_first() =~= fields@.skip(i as int + 1));
                    }
                    i += 1;
                },
                Err(e) => {
                    return Err(e);
                },
            }
        }
        proof {
            assert(fields@.skip(fields@.len() as int) =~= Seq::<(String, Value)>::empty());
        }
        Ok(())
    }

    /// Renders the fields of a record-shaped enum variant as name-and-value
    /// pairs between the braces of the externally tagged form.
    fn encode_sv_fields(&mut self, fields: &Vec<(String, Value)>) -> (r: Result<(), Error>)
        requires
            st_inv(old(self)@),
        ensures
            match enc_sv_fields(fields@, old(self)@) {
                Ok(st) => r is Ok && final(self)@ == st,
                Err(f) => r is Err && err_matches(r->Err_0, f),
            },
            r is Ok ==> st_inv(final(self)@) && final(self)@.level == old(self)@.level
                && final(self)@.no_key == old(self)@.no_key
                && (old(self)@.level >= 2 ==> final(self)@.key == old(self)@.key),
        decreases fields@, 0int,
    {
        let ghost st0 = self@;
        proof {
            assert(fields@.skip(0) =~= fields@);
        }
        let mut i: usize = 0;
        while i < fields.len()
            invariant
                0 <= i <= fields@.len(),
                st_inv(self@),
                self@.level == st0.level,
                self@.no_key == st0.no_key,
                st0.level >= 2 ==> self@.key == st0.key,
                st0 == old(self)@,
                enc_sv_fields(fields@, st0) == enc_sv_fields(fields@.skip(i as int), self@),
            decreases fields@.len() - i,
        {
            let ghost pre = self@;
            proof {
                assert(fields@.skip(i as int)[0] == fields@[i as int]);
            }
            let field = &fields[i];
            self.output.append(field.0.as_str());
            self.output.append(":");
            proof {
                reveal_strlit(":");
                assert(":"@ =~= seq![':']);
                assert(self@ =~= (EncState { out: pre.out + fields@[i as int].0@ + seq![':'], ..pre }));
                assert(decreases_to!(fields@ => fields@[i as int].1));
            }
            match self.encode_value(&field.1) {
                Ok(()) => {
                    proof {
                        assert(fields@.skip(i as int).drop_first() =~= fields@.skip(i as int + 1));
                    }
                    i += 1;
                },
                Err(e) => {
                    return Err(e);
                },
            }
        }
        proof {
            assert(fields@.skip(fields@.len() as int) =~= Seq::<(String, Value)>::empty());
        }
        Ok(())
    }
}

/// Encodes one value with a fresh encoder and returns the whole document
/// text, or the error that ended the run. No partial text escapes a failed
/// run.
pub fn to_string(value: &Value) -> (r: Result<String, Error>)
    ensures
        match spec_encode(*value) {
            Ok(text) => r matches Ok(s) && s@ == text,
            Err(f) => r matches Err(e) && err_matches(e, f),
        },
{
    let mut serializer = Serializer {
        output: String::new(),
        level: LevelTracker::new(),
        disable_write_key: false,
    };
    proof {
        assert(serializer@ =~= init_state());
    }
    match serializer.encode_value(value) {
        Ok(()) => Ok(serializer.output),
        Err(e) => Err(e),
    }
}

} // verus!
