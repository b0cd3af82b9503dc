//! A model of the DWARF types of a program, and the byte size and alignment
//! of each kind of type: its own attribute where it has one, else that of the
//! type it refers to.
use vstd::prelude::*;

verus! {

/// The byte size and alignment of a type.
pub trait TypeInfo {
    /// Whether the byte size is defined for this type (it is not for
    /// variant parts, subroutine types and subprograms).
    spec fn has_byte_size(&self) -> bool;

    /// The byte size of this type.
    spec fn byte_size_of(&self) -> Option<u64>;

    /// Whether the alignment is defined for this type (it is not for variant
    /// parts and subprograms).
    spec fn has_alignment(&self) -> bool;

    /// The alignment of this type.
    spec fn alignment_of(&self) -> Option<u64>;

    fn byte_size(&self) -> (r: Option<u64>)
        requires
            self.has_byte_size(),
        ensures
            r == self.byte_size_of(),
    ;

    fn alignment(&self) -> (r: Option<u64>)
        requires
            self.has_alignment(),
        ensures
            r == self.alignment_of(),
    ;
}

#[derive(Debug, PartialEq)]
pub enum DebuggerType {
    BaseType(BaseType),
    PointerType(PointerType),
    ArrayType(ArrayType),
    StructuredType(StructuredType),
    UnionType(UnionType),
    MemberType(MemberType),
    EnumerationType(EnumerationType),
    StringType(StringType),
    GenericSubrangeType(GenericSubrangeType),
    TemplateTypeParameter(TemplateTypeParameter),
    VariantPart(VariantPart),
    SubroutineType(SubroutineType),
    Subprogram(Subprogram),
}

#[derive(Debug, PartialEq)]
pub struct BaseType {
    pub name: Option<String>,
    /// The `DW_ATE` encoding.
    pub encoding: u8,
    pub byte_size: Option<u64>,
    pub bit_size: Option<u64>,
    pub data_bit_offset: Option<u64>,
    pub alignment: Option<u64>,
}

#[derive(Debug, PartialEq)]
pub struct PointerType {
    /// The `DW_ADDR` address class.
    pub address_class: Option<u64>,
    pub alignment: Option<u64>,
    pub bit_size: Option<u64>,
    pub byte_size: Option<u64>,
    pub name: Option<String>,
    pub type_: Box<DebuggerType>,
}

#[derive(Debug, PartialEq)]
pub struct ArrayType {
    pub alignment: Option<u64>,
    pub bit_size: Option<u64>,
    pub byte_size: Option<u64>,
    pub name: Option<String>,
    pub type_: Box<DebuggerType>,
    pub dimensions: Vec<ArrayDimension>,
}

#[derive(Debug, PartialEq)]
pub enum ArrayDimension {
    EnumerationType(EnumerationType),
    SubrangeType(SubrangeType),
}

#[derive(Debug, PartialEq)]
pub struct StructuredType {
    pub alignment: Option<u64>,
    pub bit_size: Option<u64>,
    pub byte_size: Option<u64>,
    pub children: Vec<Box<DebuggerType>>,
    pub name: Option<String>,
}

#[derive(Debug, PartialEq)]
pub struct UnionType {
    pub alignment: Option<u64>,
    pub bit_size: Option<u64>,
    pub byte_size: Option<u64>,
    pub children: Vec<Box<DebuggerType>>,
    pub name: Option<String>,
}

#[derive(Debug, PartialEq)]
pub struct MemberType {
    pub accessibility: Option<bool>,
    pub alignment: Option<u64>,
    pub artificial: Option<bool>,
    pub bit_size: Option<u64>,
    pub byte_size: Option<u64>,
    pub data_bit_offset: Option<u64>,
    pub data_member_location: Option<u64>,
    pub mutable: Option<bool>,
    pub name: Option<String>,
    pub type_: Box<DebuggerType>,
}

#[derive(Debug, PartialEq)]
pub struct EnumerationType {
    pub accessibility: Option<bool>,
    pub alignment: Option<u64>,
    pub bit_size: Option<u64>,
    pub byte_size: Option<u64>,
    pub enum_class: Option<bool>,
    pub enumerations: Vec<Enumerator>,
    pub methods: Vec<Subprogram>,
    pub name: Option<String>,
    pub type_: Box<Option<DebuggerType>>,
}

#[derive(Debug, PartialEq)]
pub struct Enumerator {
    pub name: String,
    pub const_value: u64,
}

#[derive(Debug, PartialEq)]
pub struct StringType {
    pub accessibility: Option<bool>,
    pub alignment: Option<u64>,
    pub bit_size: Option<u64>,
    pub byte_size: Option<u64>,
    pub name: Option<String>,
    pub string_length: Option<u64>,
    pub string_length_bit_size: Option<u64>,
    pub string_length_byte_size: Option<u64>,
}

#[derive(Debug, PartialEq)]
pub struct SubrangeType {
    pub accessibility: Option<bool>,
    pub alignment: Option<u64>,
    pub bit_size: Option<u64>,
    pub byte_size: Option<u64>,
    pub count: Option<u64>,
    pub lower_bound: Option<i64>,
    pub name: Option<String>,
    pub type_: Box<Option<DebuggerType>>,
    pub upper_bound: Option<i64>,
}

#[derive(Debug, PartialEq)]
pub struct GenericSubrangeType {
    pub accessibility: Option<bool>,
    pub alignment: Option<u64>,
    pub bit_size: Option<u64>,
    pub byte_size: Option<u64>,
    pub count: Option<u64>,
    pub lower_bound: Option<i64>,
    pub name: Option<String>,
    pub type_: Box<Option<DebuggerType>>,
    pub upper_bound: Option<i64>,
}

#[derive(Debug, PartialEq)]
pub struct TemplateTypeParameter {
    pub name: Option<String>,
    pub type_: Box<DebuggerType>,
}

#[derive(Debug, PartialEq)]
pub struct VariantPart {
    pub accessibility: Option<bool>,
    pub member: Option<MemberType>,
    pub variants: Vec<Variant>,
}

#[derive(Debug, PartialEq)]
pub struct Variant {
    pub accessibility: Option<bool>,
    pub discr_value: Option<u64>,
    pub member: MemberType,
}

#[derive(Debug, PartialEq)]
pub struct SubroutineType {
    pub accessibility: Option<bool>,
    pub address_class: Option<u64>,
    pub alignment: Option<u64>,
    pub name: Option<String>,
    pub linkage_name: Option<String>,
    pub type_: Box<Option<DebuggerType>>,
}

#[derive(Debug, PartialEq)]
pub struct Subprogram {
    pub name: Option<String>,
    pub linkage_name: Option<String>,
}

/// Whether the byte size of `t` is defined: it is not for variant parts,
/// subroutine types and subprograms, nor for a type whose own size is missing
/// and whose referred type has none.
pub open spec fn type_has_byte_size(t: DebuggerType) -> bool
    decreases t,
{
    match t {
        DebuggerType::PointerType(p) => p.byte_size is Some || type_has_byte_size(*p.type_),
        DebuggerType::ArrayType(a) => a.byte_size is Some || type_has_byte_size(*a.type_),
        DebuggerType::MemberType(m) => m.byte_size is Some || type_has_byte_size(*m.type_),
        DebuggerType::TemplateTypeParameter(tp) => type_has_byte_size(*tp.type_),
        DebuggerType::VariantPart(_) => false,
        DebuggerType::SubroutineType(_) => false,
        DebuggerType::Subprogram(_) => false,
        _ => true,
    }
}

/// The byte size of `t`: its own attribute, else (for pointers, arrays,
/// members and template parameters) that of the type it refers to.
pub open spec fn type_byte_size(t: DebuggerType) -> Option<u64>
    decreases t,
{
    match t {
        DebuggerType::BaseType(b) => b.byte_size,
        DebuggerType::PointerType(p) => match p.byte_size {
            Some(v) => Some(v),
            None => type_byte_size(*p.type_),
        },
        DebuggerType::ArrayType(a) => match a.byte_size {
            Some(v) => Some(v),
            None => type_byte_size(*a.type_),
        },
        DebuggerType::StructuredType(s) => s.byte_size,
        DebuggerType::UnionType(u) => u.byte_size,
        DebuggerType::MemberType(m) => match m.byte_size {
            Some(v) => Some(v),
            None => type_byte_size(*m.type_),
        },
        DebuggerType::EnumerationType(e) => e.byte_size,
        DebuggerType::StringType(s) => s.byte_size,
        DebuggerType::GenericSubrangeType(g) => g.byte_size,
        DebuggerType::TemplateTypeParameter(tp) => type_byte_size(*tp.type_),
        _ => None,
    }
}

/// Whether the alignment of `t` is defined: it is not for variant parts and
/// subprograms, nor for a type whose own alignment is missing and whose
/// referred type has none.
pub open spec fn type_has_alignment(t: DebuggerType) -> bool
    decreases t,
{
    match t {
        DebuggerType::PointerType(p) => p.alignment is Some || type_has_alignment(*p.type_),
        DebuggerType::ArrayType(a) => a.alignment is Some || type_has_alignment(*a.type_),
        DebuggerType::MemberType(m) => m.alignment is Some || type_has_alignment(*m.type_),
        DebuggerType::TemplateTypeParameter(tp) => type_has_alignment(*tp.type_),
        DebuggerType::VariantPart(_) => false,
        DebuggerType::Subprogram(_) => false,
        _ => true,
    }
}

/// The alignment of `t`: its own attribute, else (for pointers, arrays,
/// members and template parameters) that of the type it refers to.
pub open spec fn type_alignment(t: DebuggerType) -> Option<u64>
    decreases t,
{
    match t {
        DebuggerType::BaseType(b) => b.alignment,
        DebuggerType::PointerType(p) => match p.alignment {
            Some(v) => Some(v),
            None => type_alignment(*p.type_),
        },
        DebuggerType::ArrayType(a) => match a.alignment {
            Some(v) => Some(v),
            None => type_alignment(*a.type_),
        },
        DebuggerType::StructuredType(s) => s.alignment,
        DebuggerType::UnionType(u) => u.alignment,
        DebuggerType::MemberType(m) => match m.alignment {
            Some(v) => Some(v),
            None => type_alignment(*m.type_),
        },
        DebuggerType::EnumerationType(e) => e.alignment,
        DebuggerType::StringType(s) => s.alignment,
        DebuggerType::GenericSubrangeType(g) => g.alignment,
        DebuggerType::TemplateTypeParameter(tp) => type_alignment(*tp.type_),
        DebuggerType::SubroutineType(s) => s.alignment,
        _ => None,
    }
}

fn debugger_type_byte_size(t: &DebuggerType) -> (r: Option<u64>)
    requires
        type_has_byte_size(*t),
    ensures
        r == type_byte_size(*t),
    decreases t,
{
    match t {
        DebuggerType::BaseType(b) => b.byte_size,
        DebuggerType::PointerType(p) => match p.byte_size {
            Some(v) => Some(v),
            None => debugger_type_byte_size(&p.type_),
        },
        DebuggerType::ArrayType(a) => match a.byte_size {
            Some(v) => Some(v),
            None => debugger_type_byte_size(&a.type_),
        },
        DebuggerType::StructuredType(s) => s.byte_size,
        DebuggerType::UnionType(u) => u.byte_size,
        DebuggerType::MemberType(m) => match m.byte_size {
            Some(v) => Some(v),
            None => debugger_type_byte_size(&m.type_),
        },
        DebuggerType::EnumerationType(e) => e.byte_size,
        DebuggerType::StringType(s) => s.byte_size,
        DebuggerType::GenericSubrangeType(g) => g.byte_size,
        DebuggerType::TemplateTypeParameter(tp) => debugger_type_byte_size(&tp.type_),
        DebuggerType::VariantPart(_) => None,
        DebuggerType::SubroutineType(_) => None,
        DebuggerType::Subprogram(_) => None,
    }
}

fn debugger_type_alignment(t: &DebuggerType) -> (r: Option<u64>)
    requires
        type_has_alignment(*t),
    ensures
        r == type_alignment(*t),
    decreases t,
{
    match t {
        DebuggerType::BaseType(b) => b.alignment,
        DebuggerType::PointerType(p) => match p.alignment {
            Some(v) => Some(v),
            None => debugger_type_alignment(&p.type_),
        },
        DebuggerType::ArrayType(a) => match a.alignment {
            Some(v) => Some(v),
            None => debugger_type_alignment(&a.type_),
        },
        DebuggerType::StructuredType(s) => s.alignment,
        DebuggerType::UnionType(u) => u.alignment,
        DebuggerType::MemberType(m) => match m.alignment {
            Some(v) => Some(v),
            None => debugger_type_alignment(&m.type_),
        },
        DebuggerType::EnumerationType(e) => e.alignment,
        DebuggerType::StringType(s) => s.alignment,
        DebuggerType::GenericSubrangeType(g) => g.alignment,
        DebuggerType::TemplateTypeParameter(tp) => debugger_type_alignment(&tp.type_),
        DebuggerType::VariantPart(_) => None,
        DebuggerType::SubroutineType(s) => s.alignment,
        DebuggerType::Subprogram(_) => None,
    }
}

impl TypeInfo for DebuggerType {
    open spec fn has_byte_size(&self) -> bool {
        type_has_byte_size(*self)
    }

    open spec fn byte_size_of(&self) -> Option<u64> {
        type_byte_size(*self)
    }

    open spec fn has_alignment(&self) -> bool {
        type_has_alignment(*self)
    }

    open spec fn alignment_of(&self) -> Option<u64> {
        type_alignment(*self)
    }

    fn byte_size(&self) -> (r: Option<u64>) {
        debugger_type_byte_size(self)
    }

    fn alignment(&self) -> (r: Option<u64>) {
        debugger_type_alignment(self)
    }
}

impl TypeInfo for BaseType {
    open spec fn has_byte_size(&self) -> bool {
        true
    }

    open spec fn byte_size_of(&self) -> Option<u64> {
        self.byte_size
    }

    open spec fn has_alignment(&self) -> bool {
        true
    }

    open spec fn alignment_of(&self) -> Option<u64> {
        self.alignment
    }

    fn byte_size(&self) -> (r: Option<u64>) {
        self.byte_size
    }

    fn alignment(&self) -> (r: Option<u64>) {
        self.alignment
    }
}

impl TypeInfo for PointerType {
    open spec fn has_byte_size(&self) -> bool {
        self.byte_size is Some || type_has_byte_size(*self.type_)
    }

    open spec fn byte_size_of(&self) -> Option<u64> {
        match self.byte_size {
            Some(v) => Some(v),
            None => type_byte_size(*self.type_),
        }
    }

    open spec fn has_alignment(&self) -> bool {
        self.alignment is Some || type_has_alignment(*self.type_)
    }

    open spec fn alignment_of(&self) -> Option<u64> {
        match self.alignment {
            Some(v) => Some(v),
            None => type_alignment(*self.type_),
        }
    }

    fn byte_size(&self) -> (r: Option<u64>) {
        match self.byte_size {
            Some(v) => Some(v),
            None => debugger_type_byte_size(&self.type_),
        }
    }

    fn alignment(&self) -> (r: Option<u64>) {
        match self.alignment {
            Some(v) => Some(v),
            None => debugger_type_alignment(&self.type_),
        }
    }
}

impl TypeInfo for ArrayType {
    open spec fn has_byte_size(&self) -> bool {
        self.byte_size is Some || type_has_byte_size(*self.type_)
    }

    open spec fn byte_size_of(&self) -> Option<u64> {
        match self.byte_size {
            Some(v) => Some(v),
            None => type_byte_size(*self.type_),
        }
    }

    open spec fn has_alignment(&self) -> bool {
        self.alignment is Some || type_has_alignment(*self.type_)
    }

    open spec fn alignment_of(&self) -> Option<u64> {
        match self.alignment {
            Some(v) => Some(v),
            None => type_alignment(*self.type_),
        }
    }

    fn byte_size(&self) -> (r: Option<u64>) {
        match self.byte_size {
            Some(v) => Some(v),
            None => debugger_type_byte_size(&self.type_),
        }
    }

    fn alignment(&self) -> (r: Option<u64>) {
        match self.alignment {
            Some(v) => Some(v),
            None => debugger_type_alignment(&self.type_),
        }
    }
}

impl TypeInfo for ArrayDimension {
    open spec fn has_byte_size(&self) -> bool {
        true
    }

    open spec fn byte_size_of(&self) -> Option<u64> {
        match self {
            ArrayDimension::EnumerationType(e) => e.byte_size,
            ArrayDimension::SubrangeType(s) => s.byte_size,
        }
    }

    open spec fn has_alignment(&self) -> bool {
        true
    }

    open spec fn alignment_of(&self) -> Option<u64> {
        match self {
            ArrayDimension::EnumerationType(e) => e.alignment,
            ArrayDimension::SubrangeType(s) => s.alignment,
        }
    }

    fn byte_size(&self) -> (r: Option<u64>) {
        match self {
            ArrayDimension::EnumerationType(e) => e.byte_size,
            ArrayDimension::SubrangeType(s) => s.byte_size,
        }
    }

    fn alignment(&self) -> (r: Option<u64>) {
        match self {
            ArrayDimension::EnumerationType(e) => e.alignment,
            ArrayDimension::SubrangeType(s) => s.alignment,
        }
    }
}

impl TypeInfo for StructuredType {
    open spec fn has_byte_size(&self) -> bool {
        true
    }

    open spec fn byte_size_of(&self) -> Option<u64> {
        self.byte_size
    }

    open spec fn has_alignment(&self) -> bool {
        true
    }

    open spec fn alignment_of(&self) -> Option<u64> {
        self.alignment
    }

    fn byte_size(&self) -> (r: Option<u64>) {
        self.byte_size
    }

    fn alignment(&self) -> (r: Option<u64>) {
        self.alignment
    }
}

impl TypeInfo for UnionType {
    open spec fn has_byte_size(&self) -> bool {
        true
    }

    open spec fn byte_size_of(&self) -> Option<u64> {
        self.byte_size
    }

    open spec fn has_alignment(&self) -> bool {
        true
    }

    open spec fn alignment_of(&self) -> Option<u64> {
        self.alignment
    }

    fn byte_size(&self) -> (r: Option<u64>) {
        self.byte_size
    }

    fn alignment(&self) -> (r: Option<u64>) {
        self.alignment
    }
}

impl TypeInfo for MemberType {
    open spec fn has_byte_size(&self) -> bool {
        self.byte_size is Some || type_has_byte_size(*self.type_)
    }

    open spec fn byte_size_of(&self) -> Option<u64> {
        match self.byte_size {
            Some(v) => Some(v),
            None => type_byte_size(*self.type_),
        }
    }

    open spec fn has_alignment(&self) -> bool {
        self.alignment is Some || type_has_alignment(*self.type_)
    }

    open spec fn alignment_of(&self) -> Option<u64> {
        match self.alignment {
            Some(v) => Some(v),
            None => type_alignment(*self.type_),
        }
    }

    fn byte_size(&self) -> (r: Option<u64>) {
        match self.byte_size {
            Some(v) => Some(v),
            None => debugger_type_byte_size(&self.type_),
        }
    }

    fn alignment(&self) -> (r: Option<u64>) {
        match self.alignment {
            Some(v) => Some(v),
            None => debugger_type_alignment(&self.type_),
        }
    }
}

impl TypeInfo for EnumerationType {
    open spec fn has_byte_size(&self) -> bool {
        true
    }

    open spec fn byte_size_of(&self) -> Option<u64> {
        self.byte_size
    }

    open spec fn has_alignment(&self) -> bool {
        true
    }

    open spec fn alignment_of(&self) -> Option<u64> {
        self.alignment
    }

    fn byte_size(&self) -> (r: Option<u64>) {
        self.byte_size
    }

    fn alignment(&self) -> (r: Option<u64>) {
        self.alignment
    }
}

impl TypeInfo for Enumerator {
    open spec fn has_byte_size(&self) -> bool {
        true
    }

    open spec fn byte_size_of(&self) -> Option<u64> {
        None
    }

    open spec fn has_alignment(&self) -> bool {
        true
    }

    open spec fn alignment_of(&self) -> Option<u64> {
        None
    }

    fn byte_size(&self) -> (r: Option<u64>) {
        None
    }

    fn alignment(&self) -> (r: Option<u64>) {
        None
    }
}

impl TypeInfo for StringType {
    open spec fn has_byte_size(&self) -> bool {
        true
    }

    open spec fn byte_size_of(&self) -> Option<u64> {
        self.byte_size
    }

    open spec fn has_alignment(&self) -> bool {
        true
    }

    open spec fn alignment_of(&self) -> Option<u64> {
        self.alignment
    }

    fn byte_size(&self) -> (r: Option<u64>) {
        self.byte_size
    }

    fn alignment(&self) -> (r: Option<u64>) {
        self.alignment
    }
}

impl TypeInfo for SubrangeType {
    open spec fn has_byte_size(&self) -> bool {
        true
    }

    open spec fn byte_size_of(&self) -> Option<u64> {
        self.byte_size
    }

    open spec fn has_alignment(&self) -> bool {
        true
    }

    open spec fn alignment_of(&self) -> Option<u64> {
        self.alignment
    }

    fn byte_size(&self) -> (r: Option<u64>) {
        self.byte_size
    }

    fn alignment(&self) -> (r: Option<u64>) {
        self.alignment
    }
}

impl TypeInfo for GenericSubrangeType {
    open spec fn has_byte_size(&self) -> bool {
        true
    }

    open spec fn byte_size_of(&self) -> Option<u64> {
        self.byte_size
    }

    open spec fn has_alignment(&self) -> bool {
        true
    }

    open spec fn alignment_of(&self) -> Option<u64> {
        self.alignment
    }

    fn byte_size(&self) -> (r: Option<u64>) {
        self.byte_size
    }

    fn alignment(&self) -> (r: Option<u64>) {
        self.alignment
    }
}

impl TypeInfo for TemplateTypeParameter {
    open spec fn has_byte_size(&self) -> bool {
        type_has_byte_size(*self.type_)
    }

    open spec fn byte_size_of(&self) -> Option<u64> {
        type_byte_size(*self.type_)
    }

    open spec fn has_alignment(&self) -> bool {
        type_has_alignment(*self.type_)
    }

    open spec fn alignment_of(&self) -> Option<u64> {
        type_alignment(*self.type_)
    }

    fn byte_size(&self) -> (r: Option<u64>) {
        debugger_type_byte_size(&self.type_)
    }

    fn alignment(&self) -> (r: Option<u64>) {
        debugger_type_alignment(&self.type_)
    }
}

impl TypeInfo for VariantPart {
    open spec fn has_byte_size(&self) -> bool {
        false
    }

    open spec fn byte_size_of(&self) -> Option<u64> {
        None
    }

    open spec fn has_alignment(&self) -> bool {
        false
    }

    open spec fn alignment_of(&self) -> Option<u64> {
        None
    }

    fn byte_size(&self) -> (r: Option<u64>) {
        None
    }

    fn alignment(&self) -> (r: Option<u64>) {
        None
    }
}

impl TypeInfo for Variant {
    open spec fn has_byte_size(&self) -> bool {
        self.member.has_byte_size()
    }

    open spec fn byte_size_of(&self) -> Option<u64> {
        self.member.byte_size_of()
    }

    open spec fn has_alignment(&self) -> bool {
        self.member.has_alignment()
    }

    open spec fn alignment_of(&self) -> Option<u64> {
        self.member.alignment_of()
    }

    fn byte_size(&self) -> (r: Option<u64>) {
        self.member.byte_size()
    }

    fn alignment(&self) -> (r: Option<u64>) {
        self.member.alignment()
    }
}

impl TypeInfo for SubroutineType {
    open spec fn has_byte_size(&self) -> bool {
        false
    }

    open spec fn byte_size_of(&self) -> Option<u64> {
        None
    }

    open spec fn has_alignment(&self) -> bool {
        true
    }

    open spec fn alignment_of(&self) -> Option<u64> {
        self.alignment
    }

    fn byte_size(&self) -> (r: Option<u64>) {
        None
    }

    fn alignment(&self) -> (r: Option<u64>) {
        self.alignment
    }
}

impl TypeInfo for Subprogram {
    open spec fn has_byte_size(&self) -> bool {
        false
    }

    open spec fn byte_size_of(&self) -> Option<u64> {
        None
    }

    open spec fn has_alignment(&self) -> bool {
        false
    }

    open spec fn alignment_of(&self) -> Option<u64> {
        None
    }

    fn byte_size(&self) -> (r: Option<u64>) {
        None
    }

    fn alignment(&self) -> (r: Option<u64>) {
        None
    }
}

} // verus!
