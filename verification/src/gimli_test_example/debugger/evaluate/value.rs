//! The values that the type-directed evaluator gives.
use vstd::prelude::*;
use crate::rust_debug::evaluate::value::GimliValue;

verus! {

/// A value of a variable, built along its type.
#[derive(Debug)]
pub enum DebuggerValue {
    Value(GimliValue),
    Bytes(Vec<u8>),
    Array(Box<ArrayValue>),
    Struct(Box<StructValue>),
    Enum(Box<EnumValue>),
    Union(Box<UnionValue>),
    Member(Box<MemberValue>),
    Name(String),
    OptimizedOut,
    ZeroSize,
}

#[derive(Debug)]
pub struct ArrayValue {
    pub values: Vec<DebuggerValue>,
}

#[derive(Debug)]
pub struct MemberValue {
    pub name: Option<String>,
    pub value: DebuggerValue,
}

#[derive(Debug)]
pub struct StructValue {
    pub name: String,
    pub members: Vec<DebuggerValue>,
}

#[derive(Debug)]
pub struct UnionValue {
    pub name: String,
    pub members: Vec<DebuggerValue>,
}

#[derive(Debug)]
pub struct EnumValue {
    pub name: String,
    pub value: DebuggerValue,
}

/// The mathematical content of a [`DebuggerValue`].
pub enum DValue {
    Value(GimliValue),
    Bytes(Seq<u8>),
    Array(Seq<DValue>),
    Struct(Seq<char>, Seq<DValue>),
    Enum(Seq<char>, Box<DValue>),
    Union(Seq<char>, Seq<DValue>),
    Member(Option<Seq<char>>, Box<DValue>),
    Name(Seq<char>),
    OptimizedOut,
    ZeroSize,
}

pub open spec fn dvalues_view(vs: Seq<DebuggerValue>) -> Seq<DValue>
    decreases vs,
{
    Seq::new(vs.len(), |i: int| if 0 <= i < vs.len() { dvalue_view(vs[i]) } else { DValue::ZeroSize })
}

pub open spec fn dvalue_view(v: DebuggerValue) -> DValue
    decreases v,
{
    match v {
        DebuggerValue::Value(g) => DValue::Value(g),
        DebuggerValue::Bytes(b) => DValue::Bytes(b@),
        DebuggerValue::Array(a) => DValue::Array(dvalues_view(a.values@)),
        DebuggerValue::Struct(s) => DValue::Struct(s.name@, dvalues_view(s.members@)),
        DebuggerValue::Enum(e) => DValue::Enum(e.name@, Box::new(dvalue_view(e.value))),
        DebuggerValue::Union(u) => DValue::Union(u.name@, dvalues_view(u.members@)),
        DebuggerValue::Member(m) => DValue::Member(
            match m.name {
                Some(n) => Some(n@),
                None => None,
            },
            Box::new(dvalue_view(m.value)),
        ),
        DebuggerValue::Name(n) => DValue::Name(n@),
        DebuggerValue::OptimizedOut => DValue::OptimizedOut,
        DebuggerValue::ZeroSize => DValue::ZeroSize,
    }
}

impl View for DebuggerValue {
    type V = DValue;

    open spec fn view(&self) -> DValue {
        dvalue_view(*self)
    }
}

/// The value that `to_value` gives: the held value (through members); an
/// optimized-out value reads as `U32(0)`; none for other values.
pub open spec fn dvalue_value(v: DValue) -> Option<GimliValue>
    decreases v,
{
    match v {
        DValue::Value(g) => Some(g),
        DValue::Member(_, inner) => dvalue_value(*inner),
        DValue::OptimizedOut => Some(GimliValue::U32(0)),
        _ => None,
    }
}

/// The unsigned value of `v`, for the kinds `get_udata` accepts.
pub open spec fn gimli_udata(v: GimliValue) -> Option<u64> {
    match v {
        GimliValue::U8(x) => Some(x as u64),
        GimliValue::U16(x) => Some(x as u64),
        GimliValue::U32(x) => Some(x as u64),
        GimliValue::U64(x) => Some(x),
        GimliValue::Generic(x) => Some(x),
        _ => None,
    }
}

impl DebuggerValue {
    /// The value held by this value (through members); an optimized-out value
    /// reads as `U32(0)`.
    pub fn to_value(self) -> (r: Option<GimliValue>)
        requires
            dvalue_value(self@) is Some,
        ensures
            r == dvalue_value(self@),
        decreases self,
    {
        match self {
            DebuggerValue::Value(v) => Some(v),
            DebuggerValue::Member(m) => m.value.to_value(),
            DebuggerValue::OptimizedOut => Some(GimliValue::U32(0)),
            _ => None,
        }
    }
}

/// The unsigned value of an unsigned or generic value.
pub fn get_udata(value: GimliValue) -> (r: u64)
    requires
        gimli_udata(value) is Some,
    ensures
        Some(r) == gimli_udata(value),
{
    match value {
        GimliValue::U8(v) => v as u64,
        GimliValue::U16(v) => v as u64,
        GimliValue::U32(v) => v as u64,
        GimliValue::U64(v) => v,
        GimliValue::Generic(v) => v,
        _ => 0,
    }
}

} // verus!
