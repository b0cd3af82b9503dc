//! The values that evaluating a variable produces.
use vstd::prelude::*;

verus! {

/// A value of a DWARF base type. Floating-point values are held as their
/// IEEE-754 bit patterns.
#[derive(Debug, Clone, Copy, PartialEq, Eq, Structural)]
pub enum BaseValue {
    Generic(u64),
    Address32(u32),
    Bool(bool),
    U8(u8),
    U16(u16),
    U32(u32),
    U64(u64),
    I8(i8),
    I16(i16),
    I32(i32),
    I64(i64),
    /// The bits of an `f32`.
    F32(u32),
    /// The bits of an `f64`.
    F64(u64),
}

/// A value as the DWARF expression evaluator of `gimli` represents it
/// (`gimli::Value`); floating-point values are held as bit patterns.
#[derive(Debug, Clone, Copy, PartialEq, Eq, Structural)]
pub enum GimliValue {
    Generic(u64),
    I8(i8),
    U8(u8),
    I16(i16),
    U16(u16),
    I32(i32),
    U32(u32),
    I64(i64),
    U64(u64),
    F32(u32),
    F64(u64),
}

#[derive(Debug)]
pub enum EvaluatorValue {
    /// A base-type value and the bytes it was read from.
    Value(BaseValue, Vec<u8>),
    /// An implicit value given as raw bytes.
    Bytes(Vec<u8>),
    Array(Box<ArrayValue>),
    Struct(Box<StructValue>),
    Enum(Box<EnumValue>),
    Union(Box<UnionValue>),
    Member(Box<MemberValue>),
    Name(String),
    /// The variable does not have a value currently.
    OutOfRange,
    /// The value is optimized out.
    OptimizedOut,
    ZeroSize,
}

#[derive(Debug)]
pub struct ArrayValue {
    pub values: Vec<EvaluatorValue>,
}

#[derive(Debug)]
pub struct StructValue {
    pub name: String,
    pub members: Vec<EvaluatorValue>,
}

#[derive(Debug)]
pub struct EnumValue {
    pub name: String,
    pub value: EvaluatorValue,
}

#[derive(Debug)]
pub struct UnionValue {
    pub name: String,
    pub members: Vec<EvaluatorValue>,
}

#[derive(Debug)]
pub struct MemberValue {
    pub name: Option<String>,
    pub value: EvaluatorValue,
}

/// The mathematical content of an [`EvaluatorValue`].
pub enum ValueView {
    Value(BaseValue, Seq<u8>),
    Bytes(Seq<u8>),
    Array(Seq<ValueView>),
    Struct(Seq<char>, Seq<ValueView>),
    Enum(Seq<char>, Box<ValueView>),
    Union(Seq<char>, Seq<ValueView>),
    Member(Option<Seq<char>>, Box<ValueView>),
    Name(Seq<char>),
    OutOfRange,
    OptimizedOut,
    ZeroSize,
}

pub open spec fn opt_str_view(s: Option<String>) -> Option<Seq<char>> {
    match s {
        Some(s) => Some(s@),
        None => None,
    }
}

pub open spec fn values_view(vs: Seq<EvaluatorValue>) -> Seq<ValueView>
    decreases vs,
{
    Seq::new(vs.len(), |i: int| if 0 <= i < vs.len() { value_view(vs[i]) } else { ValueView::ZeroSize })
}

pub open spec fn value_view(v: EvaluatorValue) -> ValueView
    decreases v,
{
    match v {
        EvaluatorValue::Value(b, bytes) => ValueView::Value(b, bytes@),
        EvaluatorValue::Bytes(bytes) => ValueView::Bytes(bytes@),
        EvaluatorValue::Array(a) => ValueView::Array(values_view(a.values@)),
        EvaluatorValue::Struct(s) => ValueView::Struct(s.name@, values_view(s.members@)),
        EvaluatorValue::Enum(e) => ValueView::Enum(e.name@, Box::new(value_view(e.value))),
        EvaluatorValue::Union(u) => ValueView::Union(u.name@, values_view(u.members@)),
        EvaluatorValue::Member(m) => ValueView::Member(opt_str_view(m.name), Box::new(value_view(m.value))),
        EvaluatorValue::Name(n) => ValueView::Name(n@),
        EvaluatorValue::OutOfRange => ValueView::OutOfRange,
        EvaluatorValue::OptimizedOut => ValueView::OptimizedOut,
        EvaluatorValue::ZeroSize => ValueView::ZeroSize,
    }
}

impl View for EvaluatorValue {
    type V = ValueView;

    open spec fn view(&self) -> ValueView {
        value_view(*self)
    }
}

/// The base value that `to_value` gives, `None` where it has none.
pub open spec fn base_value_of(v: ValueView) -> Option<BaseValue>
    decreases v,
{
    match v {
        ValueView::Value(b, _) => Some(b),
        ValueView::Member(_, inner) => base_value_of(*inner),
        ValueView::OptimizedOut => Some(BaseValue::U32(0)),
        _ => None,
    }
}

/// The unsigned value of `v`, for the variants `get_udata` accepts.
pub open spec fn udata_of(v: BaseValue) -> Option<u64> {
    match v {
        BaseValue::U8(x) => Some(x as u64),
        BaseValue::U16(x) => Some(x as u64),
        BaseValue::U32(x) => Some(x as u64),
        BaseValue::U64(x) => Some(x),
        BaseValue::Generic(x) => Some(x),
        _ => None,
    }
}

impl EvaluatorValue {
    /// Whether `to_value` is defined on this value.
    pub fn has_base_value(&self) -> (r: bool)
        ensures
            r == (base_value_of(self@) is Some),
        decreases self,
    {
        match self {
            EvaluatorValue::Value(_, _) => true,
            EvaluatorValue::Member(m) => m.value.has_base_value(),
            EvaluatorValue::OptimizedOut => true,
            _ => false,
        }
    }

    /// The base value held by a value (through members); an optimized-out
    /// value reads as `U32(0)`.
    pub fn to_value(self) -> (r: Option<BaseValue>)
        requires
            base_value_of(self@) is Some,
        ensures
            r == base_value_of(self@),
        decreases self,
    {
        match self {
            EvaluatorValue::Value(val, _) => Some(val),
            EvaluatorValue::Member(m) => m.value.to_value(),
            EvaluatorValue::OptimizedOut => Some(BaseValue::U32(0)),
            _ => None,
        }
    }
}

/// Whether `get_udata` accepts `value`.
pub fn is_udata(value: &BaseValue) -> (r: bool)
    ensures
        r == (udata_of(*value) is Some),
{
    match value {
        BaseValue::U8(_) | BaseValue::U16(_) | BaseValue::U32(_) | BaseValue::U64(_)
        | BaseValue::Generic(_) => true,
        _ => false,
    }
}

/// The unsigned integer held by an unsigned or generic base value.
pub fn get_udata(value: BaseValue) -> (r: u64)
    requires
        udata_of(value) is Some,
    ensures
        Some(r) == udata_of(value),
{
    match value {
        BaseValue::U8(v) => v as u64,
        BaseValue::U16(v) => v as u64,
        BaseValue::U32(v) => v as u64,
        BaseValue::U64(v) => v,
        BaseValue::Generic(v) => v,
        _ => 0,
    }
}

/// The `gimli` value a base value is handed to the expression evaluator as.
pub open spec fn to_gimli_spec(value: BaseValue) -> GimliValue {
    match value {
        BaseValue::Bool(val) => GimliValue::Generic(if val { 1 } else { 0 }),
        BaseValue::Generic(val) => GimliValue::Generic(val),
        BaseValue::I8(val) => GimliValue::I8(val),
        BaseValue::U8(val) => GimliValue::U8(val),
        BaseValue::I16(val) => GimliValue::I16(val),
        BaseValue::U16(val) => GimliValue::U16(val),
        BaseValue::I32(val) => GimliValue::I32(val),
        BaseValue::U32(val) => GimliValue::U32(val),
        BaseValue::I64(val) => GimliValue::I64(val),
        BaseValue::U64(val) => GimliValue::U64(val),
        BaseValue::F32(val) => GimliValue::F32(val),
        BaseValue::F64(val) => GimliValue::F64(val),
        BaseValue::Address32(val) => GimliValue::Generic(val as u64),
    }
}

pub fn convert_to_gimli_value(value: BaseValue) -> (r: GimliValue)
    ensures
        r == to_gimli_spec(value),
{
    match value {
        BaseValue::Bool(val) => GimliValue::Generic(if val { 1 } else { 0 }),
        BaseValue::Generic(val) => GimliValue::Generic(val),
        BaseValue::I8(val) => GimliValue::I8(val),
        BaseValue::U8(val) => GimliValue::U8(val),
        BaseValue::I16(val) => GimliValue::I16(val),
        BaseValue::U16(val) => GimliValue::U16(val),
        BaseValue::I32(val) => GimliValue::I32(val),
        BaseValue::U32(val) => GimliValue::U32(val),
        BaseValue::I64(val) => GimliValue::I64(val),
        BaseValue::U64(val) => GimliValue::U64(val),
        BaseValue::F32(val) => GimliValue::F32(val),
        BaseValue::F64(val) => GimliValue::F64(val),
        BaseValue::Address32(val) => GimliValue::Generic(val as u64),
    }
}

/// The base value a `gimli` value is read back as.
pub open spec fn from_gimli_spec(value: GimliValue) -> BaseValue {
    match value {
        GimliValue::Generic(val) => BaseValue::Generic(val),
        GimliValue::I8(val) => BaseValue::I8(val),
        GimliValue::U8(val) => BaseValue::U8(val),
        GimliValue::I16(val) => BaseValue::I16(val),
        GimliValue::U16(val) => BaseValue::U16(val),
        GimliValue::I32(val) => BaseValue::I32(val),
        GimliValue::U32(val) => BaseValue::U32(val),
        GimliValue::I64(val) => BaseValue::I64(val),
        GimliValue::U64(val) => BaseValue::U64(val),
        GimliValue::F32(val) => BaseValue::F32(val),
        GimliValue::F64(val) => BaseValue::F64(val),
    }
}

pub fn convert_from_gimli_value(value: GimliValue) -> (r: BaseValue)
    ensures
        r == from_gimli_spec(value),
{
    match value {
        GimliValue::Generic(val) => BaseValue::Generic(val),
        GimliValue::I8(val) => BaseValue::I8(val),
        GimliValue::U8(val) => BaseValue::U8(val),
        GimliValue::I16(val) => BaseValue::I16(val),
        GimliValue::U16(val) => BaseValue::U16(val),
        GimliValue::I32(val) => BaseValue::I32(val),
        GimliValue::U32(val) => BaseValue::U32(val),
        GimliValue::I64(val) => BaseValue::I64(val),
        GimliValue::U64(val) => BaseValue::U64(val),
        GimliValue::F32(val) => BaseValue::F32(val),
        GimliValue::F64(val) => BaseValue::F64(val),
    }
}

/// Converting to a `gimli` value and back gives the value again, for every
/// base value that is neither a boolean nor an address (those travel as
/// generic values).
pub proof fn lemma_gimli_round_trip(value: BaseValue)
    requires
        !(value is Bool),
        !(value is Address32),
    ensures
        from_gimli_spec(to_gimli_spec(value)) == value,
{
}

} // verus!
