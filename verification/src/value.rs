//! The closed model of structured values that the Desktop Entry encoder
//! accepts: every value a caller can submit presents itself as exactly one of
//! these shapes, and composites carry their children fully, in a fixed,
//! caller-significant order.

use vstd::prelude::*;

verus! {

/// One structured value.
///
/// Scalars carry their payload directly; `Absent` and `Present` model an
/// optional value; `Dict` is a keyed map whose entries keep the caller's
/// iteration order; `Struct` is a named record whose fields keep declaration
/// order. The variant shapes (`UnitVariant` and friends) carry the enum name
/// first and the variant name second.
///
/// Floating-point scalars are not part of this model; a caller renders such a
/// number to its text first and submits it as `Str`.
pub enum Value {
    Bool(bool),
    Int64(i64),
    UInt64(u64),
    Char(char),
    Str(String),
    Bytes(Vec<u8>),
    Absent,
    Present(Box<Value>),
    Unit,
    NamedUnit(String),
    UnitVariant(String, String),
    NamedNewtype(String, Box<Value>),
    NewtypeVariant(String, String, Box<Value>),
    Sequence(Vec<Value>),
    Tuple(Vec<Value>),
    NamedTuple(String, Vec<Value>),
    TupleVariant(String, String, Vec<Value>),
    Dict(Vec<(Value, Value)>),
    Struct(String, Vec<(String, Value)>),
    StructVariant(String, String, Vec<(String, Value)>),
}

} // verus!
