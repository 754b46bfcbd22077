//! The stated laws of the encoder: a successful rendering only ever appends
//! to the output and hands the level tracker back as it found it; records
//! render one section per field in field order; a keyed map at depth two
//! renders one sub-key line per entry; a sequence renders its scalar tokens
//! semicolon-joined with a trailing semicolon, the empty sequence as nothing;
//! booleans and absent optionals render their literal tokens; and a request
//! for a fourth nesting level always fails.

use vstd::prelude::*;

use crate::desktop_entry::model::bool_token;
use crate::desktop_entry::model::bytes_body;
use crate::desktop_entry::model::close_level_state;
use crate::desktop_entry::model::elem_sep;
use crate::desktop_entry::model::enc_fields;
use crate::desktop_entry::model::enc_items;
use crate::desktop_entry::model::enc_pairs;
use crate::desktop_entry::model::enc_seq_like;
use crate::desktop_entry::model::enc_sv_fields;
use crate::desktop_entry::model::enc_value;
use crate::desktop_entry::model::entry_key_open;
use crate::desktop_entry::model::init_state;
use crate::desktop_entry::model::pre_val;
use crate::desktop_entry::model::spec_encode;
use crate::desktop_entry::model::EncFailure;
use crate::desktop_entry::model::EncState;
use crate::numfmt::dec_int;
use crate::numfmt::dec_nat;
use crate::value::Value;

verus! {

proof fn lemma_prefix_append(a: Seq<char>, b: Seq<char>)
    ensures
        a.is_prefix_of(a + b),
{
    assert(a =~= (a + b).subrange(0, a.len() as int));
}

proof fn lemma_prefix_trans(a: Seq<char>, b: Seq<char>, c: Seq<char>)
    requires
        a.is_prefix_of(b),
        b.is_prefix_of(c),
    ensures
        a.is_prefix_of(c),
{
    assert forall|i: int| 0 <= i < a.len() implies a[i] == c[i] by {
        assert(a[i] == b.subrange(0, a.len() as int)[i]);
        assert(b[i] == c.subrange(0, b.len() as int)[i]);
    }
    assert(a =~= c.subrange(0, a.len() as int));
}

proof fn lemma_bytes_body_prefix(bs: Seq<u8>, out: Seq<char>)
    ensures
        out.is_prefix_of(bytes_body(bs, out)),
    decreases bs.len(),
{
    if bs.len() == 0 {
        assert(out =~= bytes_body(bs, out).subrange(0, out.len() as int));
    } else {
        let out1 = out + elem_sep(out) + dec_nat(bs[0] as nat);
        lemma_bytes_body_prefix(bs.drop_first(), out1);
        lemma_prefix_append(out, elem_sep(out) + dec_nat(bs[0] as nat));
        assert(out + elem_sep(out) + dec_nat(bs[0] as nat) =~= out + (elem_sep(out) + dec_nat(
            bs[0] as nat,
        )));
        lemma_prefix_trans(out, out1, bytes_body(bs, out));
    }
}

proof fn lemma_emit_prefix(st: EncState, token: Seq<char>)
    ensures
        st.out.is_prefix_of(st.out + pre_val(st) + token),
{
    lemma_prefix_append(st.out, pre_val(st));
    lemma_prefix_append(st.out + pre_val(st), token);
    lemma_prefix_trans(st.out, st.out + pre_val(st), st.out + pre_val(st) + token);
}

/// A successful rendering leaves the nesting level and the suppression flag
/// exactly as they were, keeps the pending key wherever the depth made it
/// meaningful, and only ever appends to the output: the accumulator is never
/// rewound.
pub proof fn lemma_value_frame(v: Value, st: EncState)
    requires
        enc_value(v, st) is Ok,
    ensures
        enc_value(v, st)->Ok_0.level == st.level,
        enc_value(v, st)->Ok_0.no_key == st.no_key,
        st.level >= 2 ==> enc_value(v, st)->Ok_0.key == st.key,
        st.out.is_prefix_of(enc_value(v, st)->Ok_0.out),
    decreases v, 2int,
{
    let r = enc_value(v, st)->Ok_0;
    match v {
        Value::Bool(b) => {
            lemma_emit_prefix(st, bool_token(b));
        },
        Value::Int64(i) => {
            lemma_emit_prefix(st, dec_int(i as int));
        },
        Value::UInt64(n) => {
            lemma_emit_prefix(st, dec_nat(n as nat));
        },
        Value::Char(c) => {
            lemma_emit_prefix(st, seq![c]);
        },
        Value::Str(s) => {
            lemma_emit_prefix(st, s@);
        },
        Value::Absent | Value::Unit | Value::NamedUnit(_) => {
            lemma_emit_prefix(st, Seq::empty());
        },
        Value::UnitVariant(_enum_name, variant) => {
            lemma_emit_prefix(st, variant@);
        },
        Value::Bytes(bs) => {
            lemma_prefix_append(st.out, pre_val(st));
            lemma_bytes_body_prefix(bs@, st.out + pre_val(st));
            lemma_prefix_trans(st.out, st.out + pre_val(st), bytes_body(bs@, st.out + pre_val(st)));
            if bs@.len() > 0 {
                lemma_prefix_append(bytes_body(bs@, st.out + pre_val(st)), seq![';']);
                lemma_prefix_trans(
                    st.out,
                    bytes_body(bs@, st.out + pre_val(st)),
                    bytes_body(bs@, st.out + pre_val(st)) + seq![';'],
                );
            }
        },
        Value::Present(inner) => {
            lemma_value_frame(*inner, st);
        },
        Value::NamedNewtype(_name, inner) => {
            lemma_value_frame(*inner, st);
        },
        Value::NewtypeVariant(_enum_name, variant, inner) => {
            let st1 = EncState { out: st.out + pre_val(st) + variant@ + seq!['='], no_key: true, ..st };
            lemma_value_frame(*inner, st1);
            lemma_prefix_append(st.out, pre_val(st) + variant@ + seq!['=']);
            assert(st1.out =~= st.out + (pre_val(st) + variant@ + seq!['=']));
            lemma_prefix_trans(st.out, st1.out, enc_value(*inner, st1)->Ok_0.out);
        },
        Value::Sequence(items) => {
            lemma_seq_like_frame(items@, st);
        },
        Value::Tuple(items) => {
            lemma_seq_like_frame(items@, st);
        },
        Value::NamedTuple(_name, items) => {
            lemma_seq_like_frame(items@, st);
        },
        Value::TupleVariant(_enum_name, variant, items) => {
            let st1 = EncState {
                out: st.out + pre_val(st) + seq!['{'] + variant@ + seq![':', '['],
                no_key: true,
                ..st
            };
            lemma_items_frame(items@, st1);
            let st2 = enc_items(items@, st1)->Ok_0;
            lemma_prefix_append(st.out, pre_val(st) + seq!['{'] + variant@ + seq![':', '[']);
            assert(st1.out =~= st.out + (pre_val(st) + seq!['{'] + variant@ + seq![':', '[']));
            lemma_prefix_trans(st.out, st1.out, st2.out);
            let mid = if items@.len() > 0 {
                st2.out + seq![';']
            } else {
                st2.out
            };
            if items@.len() > 0 {
                lemma_prefix_append(st2.out, seq![';']);
                lemma_prefix_trans(st.out, st2.out, mid);
            }
            lemma_prefix_append(mid, seq![']', '}']);
            lemma_prefix_trans(st.out, mid, mid + seq![']', '}']);
        },
        Value::Dict(pairs) => {
            let st1 = EncState { level: st.level + 1, ..st };
            lemma_pairs_frame(pairs@, st1);
        },
        Value::Struct(_name, fields) => {
            let st1 = EncState { level: st.level + 1, ..st };
            lemma_fields_frame(fields@, st1);
        },
        Value::StructVariant(_enum_name, variant, fields) => {
            let st1 = EncState { out: st.out + seq!['{'] + variant@ + seq![':', '{'], no_key: true, ..st };
            lemma_sv_frame(fields@, st1);
            let st2 = enc_sv_fields(fields@, st1)->Ok_0;
            lemma_prefix_append(st.out, seq!['{'] + variant@ + seq![':', '{']);
            assert(st1.out =~= st.out + (seq!['{'] + variant@ + seq![':', '{']));
            lemma_prefix_trans(st.out, st1.out, st2.out);
            lemma_prefix_append(st2.out, seq!['}', '}']);
            lemma_prefix_trans(st.out, st2.out, st2.out + seq!['}', '}']);
        },
    }
}

proof fn lemma_seq_like_frame(items: Seq<Value>, st: EncState)
    requires
        enc_seq_like(items, st) is Ok,
    ensures
        enc_seq_like(items, st)->Ok_0.level == st.level,
        enc_seq_like(items, st)->Ok_0.no_key == st.no_key,
        st.level >= 2 ==> enc_seq_like(items, st)->Ok_0.key == st.key,
        st.out.is_prefix_of(enc_seq_like(items, st)->Ok_0.out),
    decreases items, 1int,
{
    let st1 = EncState { out: st.out + pre_val(st), no_key: true, ..st };
    lemma_items_frame(items, st1);
    let st2 = enc_items(items, st1)->Ok_0;
    lemma_prefix_append(st.out, pre_val(st));
    lemma_prefix_trans(st.out, st1.out, st2.out);
    if items.len() > 0 {
        lemma_prefix_append(st2.out, seq![';']);
        lemma_prefix_trans(st.out, st2.out, st2.out + seq![';']);
    }
}

proof fn lemma_items_frame(items: Seq<Value>, st: EncState)
    requires
        enc_items(items, st) is Ok,
    ensures
        enc_items(items, st)->Ok_0.level == st.level,
        enc_items(items, st)->Ok_0.no_key == st.no_key,
        st.level >= 2 ==> enc_items(items, st)->Ok_0.key == st.key,
        st.out.is_prefix_of(enc_items(items, st)->Ok_0.out),
    decreases items, 0int,
{
    if items.len() == 0 {
        assert(st.out =~= enc_items(items, st)->Ok_0.out.subrange(0, st.out.len() as int));
    } else {
        let st1 = EncState { out: st.out + elem_sep(st.out), ..st };
        lemma_value_frame(items[0], st1);
        let st2 = enc_value(items[0], st1)->Ok_0;
        lemma_items_frame(items.drop_first(), st2);
        lemma_prefix_append(st.out, elem_sep(st.out));
        lemma_prefix_trans(st.out, st1.out, st2.out);
        lemma_prefix_trans(st.out, st2.out, enc_items(items.drop_first(), st2)->Ok_0.out);
    }
}

proof fn lemma_pairs_frame(pairs: Seq<(Value, Value)>, st: EncState)
    requires
        enc_pairs(pairs, st) is Ok,
    ensures
        enc_pairs(pairs, st)->Ok_0.level == st.level,
        enc_pairs(pairs, st)->Ok_0.no_key == st.no_key,
        st.level == 3 ==> enc_pairs(pairs, st)->Ok_0.key == st.key,
        st.out.is_prefix_of(enc_pairs(pairs, st)->Ok_0.out),
    decreases pairs, 0int,
{
    if pairs.len() == 0 {
        assert(st.out =~= enc_pairs(pairs, st)->Ok_0.out.subrange(0, st.out.len() as int));
    } else {
        let k = pairs[0].0->Str_0;
        let st1 = entry_key_open(st, k@);
        lemma_value_frame(pairs[0].1, st1);
        let st2 = enc_value(pairs[0].1, st1)->Ok_0;
        let st3 = EncState { out: st2.out + seq!['\n'], ..st2 };
        lemma_pairs_frame(pairs.drop_first(), st3);
        if st.level == 1 {
            lemma_prefix_append(st.out, seq!['['] + k@ + seq![']', '\n']);
            assert(st1.out =~= st.out + (seq!['['] + k@ + seq![']', '\n']));
        } else if st.level == 2 {
            assert(st.out =~= st1.out.subrange(0, st.out.len() as int));
        } else {
            let pk = match st.key {
                Some(p) => p,
                None => Seq::empty(),
            };
            lemma_prefix_append(st.out, pk + seq!['['] + k@ + seq![']', '=']);
            assert(st1.out =~= st.out + (pk + seq!['['] + k@ + seq![']', '=']));
        }
        lemma_prefix_trans(st.out, st1.out, st2.out);
        lemma_prefix_append(st2.out, seq!['\n']);
        lemma_prefix_trans(st.out, st2.out, st3.out);
        lemma_prefix_trans(st.out, st3.out, enc_pairs(pairs.drop_first(), st3)->Ok_0.out);
    }
}

proof fn lemma_fields_frame(fields: Seq<(String, Value)>, st: EncState)
    requires
        enc_fields(fields, st) is Ok,
    ensures
        enc_fields(fields, st)->Ok_0.level == st.level,
        enc_fields(fields, st)->Ok_0.no_key == st.no_key,
        st.level == 3 ==> enc_fields(fields, st)->Ok_0.key == st.key,
        st.out.is_prefix_of(enc_fields(fields, st)->Ok_0.out),
    decreases fields, 0int,
{
    if fields.len() == 0 {
        assert(st.out =~= enc_fields(fields, st)->Ok_0.out.subrange(0, st.out.len() as int));
    } else {
        let k = fields[0].0;
        let st1 = entry_key_open(st, k@);
        lemma_value_frame(fields[0].1, st1);
        let st2 = enc_value(fields[0].1, st1)->Ok_0;
        let st3 = EncState { out: st2.out + seq!['\n'], ..st2 };
        lemma_fields_frame(fields.drop_first(), st3);
        if st.level == 1 {
            lemma_prefix_append(st.out, seq!['['] + k@ + seq![']', '\n']);
            assert(st1.out =~= st.out + (seq!['['] + k@ + seq![']', '\n']));
        } else if st.level == 2 {
            assert(st.out =~= st1.out.subrange(0, st.out.len() as int));
        } else {
            let pk = match st.key {
                Some(p) => p,
                None => Seq::empty(),
            };
            lemma_prefix_append(st.out, pk + seq!['['] + k@ + seq![']', '=']);
            assert(st1.out =~= st.out + (pk + seq!['['] + k@ + seq![']', '=']));
        }
        lemma_prefix_trans(st.out, st1.out, st2.out);
        lemma_prefix_append(st2.out, seq!['\n']);
        lemma_prefix_trans(st.out, st2.out, st3.out);
        lemma_prefix_trans(st.out, st3.out, enc_fields(fields.drop_first(), st3)->Ok_0.out);
    }
}

/// Whether a value is a plain scalar that renders as a single token.
pub open spec fn is_simple_scalar(v: Value) -> bool {
    match v {
        Value::Bool(_) => true,
        Value::Int64(_) => true,
        Value::UInt64(_) => true,
        Value::Char(_) => true,
        Value::Str(_) => true,
        Value::UnitVariant(_, _) => true,
        _ => false,
    }
}

/// The single token of a plain scalar.
pub open spec fn scalar_token(v: Value) -> Seq<char> {
    match v {
        Value::Bool(b) => bool_token(b),
        Value::Int64(i) => dec_int(i as int),
        Value::UInt64(n) => dec_nat(n as nat),
        Value::Char(c) => seq![c],
        Value::Str(s) => s@,
        Value::UnitVariant(_enum_name, variant) => variant@,
        _ => Seq::empty(),
    }
}

proof fn lemma_scalar_emits(v: Value, st: EncState)
    requires
        is_simple_scalar(v),
        st.no_key,
    ensures
        enc_value(v, st) == Ok::<EncState, EncFailure>(
            EncState { out: st.out + scalar_token(v), ..st },
        ),
{
    assert(pre_val(st) =~= Seq::<char>::empty());
    match v {
        Value::Bool(b) => {
            assert(st.out + pre_val(st) + bool_token(b) =~= st.out + scalar_token(v));
        },
        Value::Int64(i) => {
            assert(st.out + pre_val(st) + dec_int(i as int) =~= st.out + scalar_token(v));
        },
        Value::UInt64(n) => {
            assert(st.out + pre_val(st) + dec_nat(n as nat) =~= st.out + scalar_token(v));
        },
        Value::Char(c) => {
            assert(st.out + pre_val(st) + seq![c] =~= st.out + scalar_token(v));
        },
        Value::Str(s) => {
            assert(st.out + pre_val(st) + s@ =~= st.out + scalar_token(v));
        },
        Value::UnitVariant(_enum_name, variant) => {
            assert(st.out + pre_val(st) + variant@ =~= st.out + scalar_token(v));
        },
        _ => {
            assert(false);
        },
    }
    assert((EncState { out: st.out + pre_val(st) + scalar_token(v), ..st }) =~= (EncState {
        out: st.out + scalar_token(v),
        ..st
    }));
}

/// The scalar tokens of a sequence joined by semicolons, without a trailing
/// one.
pub open spec fn sep_joined(items: Seq<Value>) -> Seq<char>
    decreases items.len(),
{
    if items.len() == 0 {
        Seq::empty()
    } else if items.len() == 1 {
        scalar_token(items[0])
    } else {
        scalar_token(items[0]) + seq![';'] + sep_joined(items.drop_first())
    }
}

proof fn lemma_items_tokens(items: Seq<Value>, st: EncState)
    requires
        st.no_key,
        st.out.len() > 0,
        forall|j: int|
            0 <= j < items.len() ==> is_simple_scalar(#[trigger] items[j]) && scalar_token(
                items[j],
            ).len() > 0 && scalar_token(items[j]).last() != '=',
    ensures
        enc_items(items, st) == Ok::<EncState, EncFailure>(
            EncState {
                out: st.out + (if items.len() == 0 {
                    Seq::<char>::empty()
                } else if st.out.last() == '=' {
                    sep_joined(items)
                } else {
                    seq![';'] + sep_joined(items)
                }),
                ..st
            },
        ),
    decreases items.len(),
{
    if items.len() == 0 {
        assert(st.out + Seq::<char>::empty() =~= st.out);
        assert((EncState { out: st.out + Seq::<char>::empty(), ..st }) =~= st);
    } else {
        let sep = elem_sep(st.out);
        let st1 = EncState { out: st.out + sep, ..st };
        let tok = scalar_token(items[0]);
        lemma_scalar_emits(items[0], st1);
        let st2 = EncState { out: st1.out + tok, ..st1 };
        assert(st2.out.len() > 0);
        assert(st2.out.last() == tok.last());
        let rest = items.drop_first();
        assert forall|j: int| 0 <= j < rest.len() implies is_simple_scalar(#[trigger] rest[j])
            && scalar_token(rest[j]).len() > 0 && scalar_token(rest[j]).last() != '=' by {
            assert(rest[j] == items[j + 1]);
        }
        lemma_items_tokens(rest, st2);
        if rest.len() == 0 {
            assert(sep_joined(items) == tok);
            assert(st2.out + Seq::<char>::empty() =~= st2.out);
            if st.out.last() == '=' {
                assert(st.out + sep + tok =~= st.out + sep_joined(items));
            } else {
                assert(st.out + sep + tok =~= st.out + (seq![';'] + sep_joined(items)));
            }
        } else {
            assert(sep_joined(items) == tok + seq![';'] + sep_joined(rest));
            assert(st2.out.last() != '=');
            if st.out.last() == '=' {
                assert(st2.out + (seq![';'] + sep_joined(rest)) =~= st.out + sep_joined(items));
            } else {
                assert(st2.out + (seq![';'] + sep_joined(rest)) =~= st.out + (seq![';']
                    + sep_joined(items)));
            }
        }
        assert((EncState { out: st2.out, ..st2 }) =~= st2);
    }
}

/// A sequence of k scalar items standing as a depth-two value renders as its
/// key, the equals sign, and the k tokens joined by semicolons with one
/// trailing semicolon; the empty sequence renders as nothing after the
/// equals sign.
pub proof fn lemma_sequence_tokens(v: Value, st: EncState)
    requires
        v is Sequence,
        st.level == 2,
        !st.no_key,
        st.key is Some,
        forall|j: int|
            0 <= j < v->Sequence_0@.len() ==> is_simple_scalar(#[trigger] v->Sequence_0@[j])
                && scalar_token(v->Sequence_0@[j]).len() > 0 && scalar_token(
                v->Sequence_0@[j],
            ).last() != '=',
    ensures
        enc_value(v, st) == Ok::<EncState, EncFailure>(
            EncState {
                out: st.out + st.key->0 + seq!['='] + (if v->Sequence_0@.len() == 0 {
                    Seq::<char>::empty()
                } else {
                    sep_joined(v->Sequence_0@) + seq![';']
                }),
                ..st
            },
        ),
{
    let items = v->Sequence_0@;
    let st1 = EncState { out: st.out + pre_val(st), no_key: true, ..st };
    assert(pre_val(st) == st.key->0 + seq!['=']);
    assert(st1.out.len() > 0);
    assert(st1.out.last() == '=') by {
        assert(pre_val(st).last() == '=');
    }
    lemma_items_tokens(items, st1);
    let st2 = enc_items(items, st1)->Ok_0;
    let stfin = EncState {
        out: if items.len() > 0 {
            st2.out + seq![';']
        } else {
            st2.out
        },
        no_key: st.no_key,
        ..st2
    };
    assert(enc_value(v, st) == enc_seq_like(items, st));
    assert(enc_seq_like(items, st) == Ok::<EncState, EncFailure>(stfin));
    if items.len() == 0 {
        assert(st1.out + Seq::<char>::empty() =~= st1.out);
        assert(stfin.out =~= st.out + st.key->0 + seq!['='] + Seq::<char>::empty());
    } else {
        assert(stfin.out =~= st.out + st.key->0 + seq!['='] + (sep_joined(items) + seq![';']));
    }
    assert(stfin =~= (EncState {
        out: st.out + st.key->0 + seq!['='] + (if items.len() == 0 {
            Seq::<char>::empty()
        } else {
            sep_joined(items) + seq![';']
        }),
        ..st
    }));
}

/// One rendered line per entry of a depth-two keyed map: the key of the
/// depth-two field, the bracketed map key, the equals sign, the entry's
/// token, and the line break.
pub open spec fn map_lines(field: Seq<char>, pairs: Seq<(Value, Value)>) -> Seq<char>
    decreases pairs.len(),
{
    if pairs.len() == 0 {
        Seq::empty()
    } else {
        field + seq!['['] + pairs[0].0->Str_0@ + seq![']', '='] + scalar_token(pairs[0].1) + seq![
            '\n',
        ] + map_lines(field, pairs.drop_first())
    }
}

proof fn lemma_pairs_lines(pairs: Seq<(Value, Value)>, st: EncState)
    requires
        st.level == 3,
        st.key is Some,
        forall|j: int|
            0 <= j < pairs.len() ==> (#[trigger] pairs[j]).0 is Str && is_simple_scalar(
                pairs[j].1,
            ),
    ensures
        enc_pairs(pairs, st) == Ok::<EncState, EncFailure>(
            EncState { out: st.out + map_lines(st.key->0, pairs), ..st },
        ),
    decreases pairs.len(),
{
    if pairs.len() == 0 {
        assert(st.out + Seq::<char>::empty() =~= st.out);
        assert((EncState { out: st.out + map_lines(st.key->0, pairs), ..st }) =~= st);
    } else {
        let k = pairs[0].0->Str_0;
        let pk = st.key->0;
        let st1 = entry_key_open(st, k@);
        assert(st1 == (EncState { out: st.out + pk + seq!['['] + k@ + seq![']', '='], ..st }));
        assert(pre_val(st1) =~= Seq::<char>::empty());
        let tok = scalar_token(pairs[0].1);
        match pairs[0].1 {
            Value::Bool(_) | Value::Int64(_) | Value::UInt64(_) | Value::Char(_) | Value::Str(_)
                | Value::UnitVariant(_, _) => {
            },
            _ => {
                assert(false);
            },
        }
        assert(enc_value(pairs[0].1, st1) == Ok::<EncState, EncFailure>(
            EncState { out: st1.out + tok, ..st1 },
        )) by {
            match pairs[0].1 {
                Value::Bool(b) => {
                    assert(st1.out + pre_val(st1) + bool_token(b) =~= st1.out + tok);
                },
                Value::Int64(i) => {
                    assert(st1.out + pre_val(st1) + dec_int(i as int) =~= st1.out + tok);
                },
                Value::UInt64(n) => {
                    assert(st1.out + pre_val(st1) + dec_nat(n as nat) =~= st1.out + tok);
                },
                Value::Char(c) => {
                    assert(st1.out + pre_val(st1) + seq![c] =~= st1.out + tok);
                },
                Value::Str(s) => {
                    assert(st1.out + pre_val(st1) + s@ =~= st1.out + tok);
                },
                Value::UnitVariant(_enum_name, variant) => {
                    assert(st1.out + pre_val(st1) + variant@ =~= st1.out + tok);
                },
                _ => {
                    assert(false);
                },
            }
            assert((EncState { out: st1.out + pre_val(st1) + tok, ..st1 }) =~= (EncState {
                out: st1.out + tok,
                ..st1
            }));
        }
        let st2 = EncState { out: st1.out + tok, ..st1 };
        let st3 = EncState { out: st2.out + seq!['\n'], ..st2 };
        let rest = pairs.drop_first();
        assert forall|j: int| 0 <= j < rest.len() implies (#[trigger] rest[j]).0 is Str
            && is_simple_scalar(rest[j].1) by {
            assert(rest[j] == pairs[j + 1]);
        }
        lemma_pairs_lines(rest, st3);
        assert(st3.out + map_lines(pk, rest) =~= st.out + map_lines(pk, pairs));
        assert((EncState { out: st3.out + map_lines(pk, rest), ..st3 }) =~= (EncState {
            out: st.out + map_lines(pk, pairs),
            ..st
        }));
    }
}

/// A keyed map standing as the value of a depth-two key renders exactly one
/// sub-key line per entry, in entry order, and hands the state back at depth
/// two with the pending key intact.
pub proof fn lemma_depth2_map_lines(v: Value, st: EncState)
    requires
        v is Dict,
        st.level == 2,
        st.key is Some,
        forall|j: int|
            0 <= j < v->Dict_0@.len() ==> (#[trigger] v->Dict_0@[j]).0 is Str && is_simple_scalar(
                v->Dict_0@[j].1,
            ),
    ensures
        enc_value(v, st) == Ok::<EncState, EncFailure>(
            EncState { out: st.out + map_lines(st.key->0, v->Dict_0@), ..st },
        ),
{
    let st1 = EncState { level: 3, ..st };
    lemma_pairs_lines(v->Dict_0@, st1);
    let st2 = enc_pairs(v->Dict_0@, st1)->Ok_0;
    assert(close_level_state(st2) =~= (EncState {
        out: st.out + map_lines(st.key->0, v->Dict_0@),
        ..st
    }));
}

/// The concatenation, field by field, of one bracketed section per record
/// field: the header, the field's own rendering, and the closing line break.
pub open spec fn concat_sections(fields: Seq<(String, Value)>, bodies: Seq<Seq<char>>) -> Seq<char>
    decreases fields.len(),
{
    if fields.len() == 0 || bodies.len() != fields.len() {
        Seq::empty()
    } else {
        seq!['['] + fields[0].0@ + seq![']', '\n'] + bodies[0] + seq!['\n'] + concat_sections(
            fields.drop_first(),
            bodies.drop_first(),
        )
    }
}

proof fn lemma_fields_sections(fields: Seq<(String, Value)>, st: EncState) -> (bodies: Seq<
    Seq<char>,
>)
    requires
        st.level == 1,
        enc_fields(fields, st) is Ok,
    ensures
        bodies.len() == fields.len(),
        enc_fields(fields, st)->Ok_0.out == st.out + concat_sections(fields, bodies),
    decreases fields.len(),
{
    if fields.len() == 0 {
        assert(st.out + Seq::<char>::empty() =~= st.out);
        Seq::empty()
    } else {
        let k = fields[0].0;
        let st1 = entry_key_open(st, k@);
        lemma_value_frame(fields[0].1, st1);
        let st2 = enc_value(fields[0].1, st1)->Ok_0;
        let body = st2.out.skip(st1.out.len() as int);
        assert(st2.out =~= st1.out + body) by {
            assert(st1.out =~= st2.out.subrange(0, st1.out.len() as int));
        }
        let st3 = EncState { out: st2.out + seq!['\n'], ..st2 };
        let rest = lemma_fields_sections(fields.drop_first(), st3);
        let bodies = seq![body] + rest;
        assert(bodies[0] == body);
        assert(bodies.drop_first() =~= rest);
        assert(concat_sections(fields, bodies) == seq!['['] + fields[0].0@ + seq![']', '\n']
            + body + seq!['\n'] + concat_sections(fields.drop_first(), rest)) by {
            assert(concat_sections(fields.drop_first(), bodies.drop_first()) == concat_sections(
                fields.drop_first(),
                rest,
            ));
        }
        assert(enc_fields(fields, st)->Ok_0.out =~= st.out + concat_sections(fields, bodies)) by {
            assert(st1.out =~= st.out + (seq!['['] + k@ + seq![']', '\n']));
        }
        bodies
    }
}

/// A record rendered at the root yields exactly one section per field, in
/// field order: the whole text is the concatenation, field by field, of the
/// bracketed header, the field's own rendering, and the closing line break.
pub proof fn lemma_struct_sections(v: Value) -> (bodies: Seq<Seq<char>>)
    requires
        v is Struct,
        spec_encode(v) is Ok,
    ensures
        bodies.len() == v->Struct_1@.len(),
        spec_encode(v)->Ok_0 == concat_sections(v->Struct_1@, bodies),
{
    let st1 = EncState { level: 1, ..init_state() };
    let bodies = lemma_fields_sections(v->Struct_1@, st1);
    assert(Seq::<char>::empty() + concat_sections(v->Struct_1@, bodies) =~= concat_sections(
        v->Struct_1@,
        bodies,
    ));
    bodies
}

/// A value that nests a keyed map in a keyed map in a record in a record —
/// four meaningful levels — fails with the structural error for the fourth
/// level: over-deep input is rejected, never truncated or flattened.
pub proof fn lemma_fourth_level_fails(v: Value)
    requires
        v is Dict,
        v->Dict_0@.len() >= 1,
        v->Dict_0@[0].0 is Str,
        v->Dict_0@[0].1 is Dict,
        v->Dict_0@[0].1->Dict_0@.len() >= 1,
        v->Dict_0@[0].1->Dict_0@[0].0 is Str,
        v->Dict_0@[0].1->Dict_0@[0].1 is Struct,
        v->Dict_0@[0].1->Dict_0@[0].1->Struct_1@.len() >= 1,
        v->Dict_0@[0].1->Dict_0@[0].1->Struct_1@[0].1 is Struct,
    ensures
        spec_encode(v) == Err::<Seq<char>, EncFailure>(EncFailure::DepthExceeded { level: 4 }),
{
    let pairs1 = v->Dict_0@;
    let stl1 = EncState { level: 1, ..init_state() };
    let k1 = pairs1[0].0->Str_0;
    let st1 = entry_key_open(stl1, k1@);
    let inner2 = pairs1[0].1;
    let pairs2 = inner2->Dict_0@;
    let stl2 = EncState { level: 2, ..st1 };
    let k2 = pairs2[0].0->Str_0;
    let st2 = entry_key_open(stl2, k2@);
    let inner3 = pairs2[0].1;
    let fields3 = inner3->Struct_1@;
    let stl3 = EncState { level: 3, ..st2 };
    let k3 = fields3[0].0;
    let st3 = entry_key_open(stl3, k3@);
    assert(enc_value(fields3[0].1, st3) == Err::<EncState, EncFailure>(
        EncFailure::DepthExceeded { level: 4 },
    ));
    assert(enc_fields(fields3, stl3) == Err::<EncState, EncFailure>(
        EncFailure::DepthExceeded { level: 4 },
    ));
    assert(enc_value(inner3, st2) == Err::<EncState, EncFailure>(
        EncFailure::DepthExceeded { level: 4 },
    ));
    assert(enc_pairs(pairs2, stl2) == Err::<EncState, EncFailure>(
        EncFailure::DepthExceeded { level: 4 },
    ));
    assert(enc_value(inner2, st1) == Err::<EncState, EncFailure>(
        EncFailure::DepthExceeded { level: 4 },
    ));
    assert(enc_pairs(pairs1, stl1) == Err::<EncState, EncFailure>(
        EncFailure::DepthExceeded { level: 4 },
    ));
}

/// At a depth-two key, `true` and `false` render as exactly the literal
/// tokens `true` and `false`, and an absent optional renders as nothing
/// after the equals sign.
pub proof fn lemma_bool_and_absent_tokens(b: bool, st: EncState)
    requires
        st.level == 2,
        !st.no_key,
        st.key is Some,
    ensures
        enc_value(Value::Bool(b), st) == Ok::<EncState, EncFailure>(
            EncState { out: st.out + st.key->0 + seq!['='] + bool_token(b), ..st },
        ),
        enc_value(Value::Absent, st) == Ok::<EncState, EncFailure>(
            EncState { out: st.out + st.key->0 + seq!['='], ..st },
        ),
{
    assert(pre_val(st) == st.key->0 + seq!['=']);
    assert((EncState { out: st.out + pre_val(st) + bool_token(b), ..st }) =~= (EncState {
        out: st.out + st.key->0 + seq!['='] + bool_token(b),
        ..st
    }));
    assert((EncState { out: st.out + pre_val(st) + Seq::<char>::empty(), ..st }) =~= (EncState {
        out: st.out + st.key->0 + seq!['='],
        ..st
    }));
}

proof fn lemma_sv_frame(fields: Seq<(String, Value)>, st: EncState)
    requires
        enc_sv_fields(fields, st) is Ok,
    ensures
        enc_sv_fields(fields, st)->Ok_0.level == st.level,
        enc_sv_fields(fields, st)->Ok_0.no_key == st.no_key,
        st.level >= 2 ==> enc_sv_fields(fields, st)->Ok_0.key == st.key,
        st.out.is_prefix_of(enc_sv_fields(fields, st)->Ok_0.out),
    decreases fields, 0int,
{
    if fields.len() == 0 {
        assert(st.out =~= enc_sv_fields(fields, st)->Ok_0.out.subrange(0, st.out.len() as int));
    } else {
        let st1 = EncState { out: st.out + fields[0].0@ + seq![':'], ..st };
        lemma_value_frame(fields[0].1, st1);
        let st2 = enc_value(fields[0].1, st1)->Ok_0;
        lemma_sv_frame(fields.drop_first(), st2);
        lemma_prefix_append(st.out, fields[0].0@ + seq![':']);
        assert(st1.out =~= st.out + (fields[0].0@ + seq![':']));
        lemma_prefix_trans(st.out, st1.out, st2.out);
        lemma_prefix_trans(st.out, st2.out, enc_sv_fields(fields.drop_first(), st2)->Ok_0.out);
    }
}

} // verus!
