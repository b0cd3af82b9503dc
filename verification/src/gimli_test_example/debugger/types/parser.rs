//! Reading the type entries of the debugging information into the type
//! model: the tag of an entry gives its kind of type, the attributes that kind
//! reads give its fields, its `type` attribute the type it refers to, and its
//! children its members, dimensions, enumerators or variants.
use vstd::prelude::*;
use super::types::{
    ArrayDimension, ArrayType, BaseType, DebuggerType, EnumerationType, Enumerator, GenericSubrangeType,
    MemberType, PointerType, StringType, StructuredType, Subprogram, SubrangeType, SubroutineType,
    TemplateTypeParameter, UnionType, Variant, VariantPart,
};

verus! {

pub const DW_TAG_ARRAY_TYPE: u16 = 0x01;
pub const DW_TAG_ENUMERATION_TYPE: u16 = 0x04;
pub const DW_TAG_MEMBER: u16 = 0x0d;
pub const DW_TAG_POINTER_TYPE: u16 = 0x0f;
pub const DW_TAG_STRING_TYPE: u16 = 0x12;
pub const DW_TAG_STRUCTURE_TYPE: u16 = 0x13;
pub const DW_TAG_SUBROUTINE_TYPE: u16 = 0x15;
pub const DW_TAG_UNION_TYPE: u16 = 0x17;
pub const DW_TAG_VARIANT: u16 = 0x19;
pub const DW_TAG_SUBRANGE_TYPE: u16 = 0x21;
pub const DW_TAG_BASE_TYPE: u16 = 0x24;
pub const DW_TAG_ENUMERATOR: u16 = 0x28;
pub const DW_TAG_SUBPROGRAM: u16 = 0x2e;
pub const DW_TAG_TEMPLATE_TYPE_PARAMETER: u16 = 0x2f;
pub const DW_TAG_VARIANT_PART: u16 = 0x33;
pub const DW_TAG_GENERIC_SUBRANGE: u16 = 0x45;

/// An attribute of an entry as the parser finds it.
#[derive(Debug, Clone)]
pub enum Attr<T> {
    /// The entry does not have it (or its value could not be looked up).
    Absent,
    /// The entry has it, in the form the parser reads.
    Value(T),
    /// The entry has it in a form the parser does not read.
    OtherForm,
}

/// The `type` attribute of an entry.
#[derive(Debug)]
pub enum TypeRef {
    Absent,
    /// A reference to an entry, with that entry and its children.
    Entry(Box<TypeEntry>),
    /// A reference that leads to no entry.
    Unresolved,
    /// A form other than a reference.
    OtherForm,
}

/// A debugging information entry of a type, with the attributes the parser
/// reads, the entry its `type` attribute refers to, and its children.
#[derive(Debug)]
pub struct TypeEntry {
    pub tag: u16,
    pub name: Attr<String>,
    pub linkage_name: Attr<String>,
    pub accessibility: Attr<bool>,
    pub alignment: Attr<u64>,
    pub artificial: Attr<bool>,
    pub bit_size: Attr<u64>,
    pub byte_size: Attr<u64>,
    pub data_bit_offset: Attr<u64>,
    pub data_member_location: Attr<u64>,
    pub mutable: Attr<bool>,
    pub encoding: Attr<u8>,
    pub address_class: Attr<u64>,
    pub const_value: Attr<u64>,
    pub enum_class: Attr<bool>,
    pub count: Attr<u64>,
    pub lower_bound: Attr<i64>,
    pub upper_bound: Attr<i64>,
    pub string_length: Attr<u64>,
    pub string_length_bit_size: Attr<u64>,
    pub string_length_byte_size: Attr<u64>,
    pub discr_value: Attr<u64>,
    pub type_ref: TypeRef,
    pub children: Vec<TypeEntry>,
}

impl TypeEntry {
    /// An entry of tag `tag` with no attributes, no `type` attribute and no
    /// children.
    pub fn new(tag: u16) -> (e: TypeEntry)
        ensures
            e.tag == tag,
            e.name is Absent && e.linkage_name is Absent && e.accessibility is Absent,
            e.alignment is Absent && e.artificial is Absent && e.bit_size is Absent,
            e.byte_size is Absent && e.data_bit_offset is Absent && e.data_member_location is Absent,
            e.mutable is Absent && e.encoding is Absent && e.address_class is Absent,
            e.const_value is Absent && e.enum_class is Absent && e.count is Absent,
            e.lower_bound is Absent && e.upper_bound is Absent && e.string_length is Absent,
            e.string_length_bit_size is Absent && e.string_length_byte_size is Absent,
            e.discr_value is Absent,
            e.type_ref is Absent,
            e.children@.len() == 0,
    {
        TypeEntry {
            tag,
            name: Attr::Absent,
            linkage_name: Attr::Absent,
            accessibility: Attr::Absent,
            alignment: Attr::Absent,
            artificial: Attr::Absent,
            bit_size: Attr::Absent,
            byte_size: Attr::Absent,
            data_bit_offset: Attr::Absent,
            data_member_location: Attr::Absent,
            mutable: Attr::Absent,
            encoding: Attr::Absent,
            address_class: Attr::Absent,
            const_value: Attr::Absent,
            enum_class: Attr::Absent,
            count: Attr::Absent,
            lower_bound: Attr::Absent,
            upper_bound: Attr::Absent,
            string_length: Attr::Absent,
            string_length_bit_size: Attr::Absent,
            string_length_byte_size: Attr::Absent,
            discr_value: Attr::Absent,
            type_ref: TypeRef::Absent,
            children: Vec::new(),
        }
    }
}

/// Why an entry cannot be read as a type.
#[derive(Debug, Clone, Copy, PartialEq, Eq, Structural)]
pub enum TypeParseError {
    /// The entry, or an entry it holds or refers to, has a tag, an attribute
    /// form or a set of children that the parser does not read, or lacks an
    /// attribute that it needs.
    NotReadable,
}

/// The value of an attribute, if the entry has it in the form read.
pub open spec fn attr_of<T>(a: Attr<T>) -> Option<T> {
    match a {
        Attr::Value(v) => Some(v),
        _ => None,
    }
}

/// Whether an attribute is in a form the parser does not read.
pub open spec fn attr_bad<T>(a: Attr<T>) -> bool {
    a is OtherForm
}

/// How many of the entries `cs[..i]` have the tag `tag`.
pub open spec fn tag_rank(cs: Seq<TypeEntry>, tag: u16, i: int) -> nat
    decreases i,
{
    if i <= 0 {
        0
    } else if cs[i - 1].tag == tag {
        tag_rank(cs, tag, i - 1) + 1
    } else {
        tag_rank(cs, tag, i - 1)
    }
}

// Whether reading fails.

/// Whether reading the `type` attribute of `e` fails; where the type is
/// needed, a missing or unresolved reference fails too.
pub open spec fn type_faults(e: TypeEntry, needed: bool) -> bool
    decreases e, 0nat,
{
    match e.type_ref {
        TypeRef::Absent => needed,
        TypeRef::Unresolved => needed,
        TypeRef::OtherForm => true,
        TypeRef::Entry(t) => node_faults(*t),
    }
}

/// Whether reading `e` as a type fails (see [`parse_type_node`]).
pub open spec fn node_faults(e: TypeEntry) -> bool
    decreases e, 2nat,
{
    if e.tag == DW_TAG_BASE_TYPE {
        base_faults(e)
    } else if e.tag == DW_TAG_POINTER_TYPE {
        pointer_faults(e)
    } else if e.tag == DW_TAG_ARRAY_TYPE {
        array_faults(e)
    } else if e.tag == DW_TAG_STRUCTURE_TYPE || e.tag == DW_TAG_UNION_TYPE {
        aggregate_faults(e)
    } else if e.tag == DW_TAG_MEMBER {
        member_faults(e)
    } else if e.tag == DW_TAG_ENUMERATION_TYPE {
        enumeration_faults(e)
    } else if e.tag == DW_TAG_STRING_TYPE {
        string_faults(e)
    } else if e.tag == DW_TAG_GENERIC_SUBRANGE {
        subrange_faults(e)
    } else if e.tag == DW_TAG_TEMPLATE_TYPE_PARAMETER {
        template_faults(e)
    } else if e.tag == DW_TAG_VARIANT_PART {
        variant_part_faults(e)
    } else if e.tag == DW_TAG_SUBROUTINE_TYPE {
        subroutine_faults(e)
    } else if e.tag == DW_TAG_SUBPROGRAM {
        subprogram_faults(e)
    } else {
        true
    }
}

pub open spec fn base_faults(e: TypeEntry) -> bool {
    ||| attr_bad(e.name)
    ||| !(e.encoding is Value)
    ||| attr_bad(e.byte_size)
    ||| attr_bad(e.bit_size)
    ||| attr_bad(e.data_bit_offset)
    ||| attr_bad(e.alignment)
}

pub open spec fn pointer_faults(e: TypeEntry) -> bool
    decreases e, 1nat,
{
    ||| attr_bad(e.address_class)
    ||| attr_bad(e.alignment)
    ||| attr_bad(e.bit_size)
    ||| attr_bad(e.byte_size)
    ||| attr_bad(e.name)
    ||| type_faults(e, true)
}

pub open spec fn member_faults(e: TypeEntry) -> bool
    decreases e, 1nat,
{
    ||| attr_bad(e.accessibility)
    ||| attr_bad(e.alignment)
    ||| attr_bad(e.artificial)
    ||| attr_bad(e.bit_size)
    ||| attr_bad(e.byte_size)
    ||| attr_bad(e.data_bit_offset)
    ||| attr_bad(e.data_member_location)
    ||| attr_bad(e.mutable)
    ||| attr_bad(e.name)
    ||| type_faults(e, true)
}

/// Structures and unions read the same attributes and read every child as a
/// type.
pub open spec fn aggregate_faults(e: TypeEntry) -> bool
    decreases e, 1nat,
{
    ||| attr_bad(e.alignment)
    ||| attr_bad(e.bit_size)
    ||| attr_bad(e.byte_size)
    ||| attr_bad(e.name)
    ||| exists|i: int| 0 <= i < e.children@.len() && node_faults(#[trigger] e.children@[i])
}

/// An array reads its first child, if any, as its dimension: a subrange or
/// an enumeration.
pub open spec fn array_faults(e: TypeEntry) -> bool
    decreases e, 1nat,
{
    ||| attr_bad(e.alignment)
    ||| attr_bad(e.bit_size)
    ||| attr_bad(e.byte_size)
    ||| attr_bad(e.name)
    ||| type_faults(e, true)
    ||| (e.children@.len() > 0 && if e.children@[0].tag == DW_TAG_SUBRANGE_TYPE {
        subrange_faults(e.children@[0])
    } else if e.children@[0].tag == DW_TAG_ENUMERATION_TYPE {
        enumeration_faults(e.children@[0])
    } else {
        true
    })
}

/// An enumeration reads its enumerator and subprogram children; any other
/// child fails.
pub open spec fn enumeration_faults(e: TypeEntry) -> bool
    decreases e, 1nat,
{
    ||| attr_bad(e.accessibility)
    ||| attr_bad(e.alignment)
    ||| attr_bad(e.bit_size)
    ||| attr_bad(e.byte_size)
    ||| attr_bad(e.enum_class)
    ||| attr_bad(e.name)
    ||| type_faults(e, false)
    ||| exists|i: int|
        0 <= i < e.children@.len() && enumeration_child_faults(#[trigger] e.children@[i])
}

pub open spec fn enumeration_child_faults(c: TypeEntry) -> bool {
    if c.tag == DW_TAG_ENUMERATOR {
        enumerator_faults(c)
    } else if c.tag == DW_TAG_SUBPROGRAM {
        subprogram_faults(c)
    } else {
        true
    }
}

/// An enumerator needs its name and its constant value.
pub open spec fn enumerator_faults(c: TypeEntry) -> bool {
    !(c.name is Value) || !(c.const_value is Value)
}

pub open spec fn subprogram_faults(c: TypeEntry) -> bool {
    attr_bad(c.name) || attr_bad(c.linkage_name)
}

pub open spec fn string_faults(e: TypeEntry) -> bool {
    ||| attr_bad(e.accessibility)
    ||| attr_bad(e.alignment)
    ||| attr_bad(e.bit_size)
    ||| attr_bad(e.byte_size)
    ||| attr_bad(e.name)
    ||| attr_bad(e.string_length)
    ||| attr_bad(e.string_length_bit_size)
    ||| attr_bad(e.string_length_byte_size)
}

/// Subranges and generic subranges read the same attributes.
pub open spec fn subrange_faults(e: TypeEntry) -> bool
    decreases e, 1nat,
{
    ||| attr_bad(e.accessibility)
    ||| attr_bad(e.alignment)
    ||| attr_bad(e.bit_size)
    ||| attr_bad(e.byte_size)
    ||| attr_bad(e.count)
    ||| attr_bad(e.lower_bound)
    ||| attr_bad(e.name)
    ||| type_faults(e, false)
    ||| attr_bad(e.upper_bound)
}

pub open spec fn template_faults(e: TypeEntry) -> bool
    decreases e, 1nat,
{
    attr_bad(e.name) || type_faults(e, true)
}

/// A variant part reads at most one member child and its variant children;
/// any other child fails.
pub open spec fn variant_part_faults(e: TypeEntry) -> bool
    decreases e, 1nat,
{
    ||| attr_bad(e.accessibility)
    ||| tag_rank(e.children@, DW_TAG_MEMBER, e.children@.len() as int) > 1
    ||| exists|i: int|
        0 <= i < e.children@.len() && variant_part_child_faults(#[trigger] e.children@[i])
}

pub open spec fn variant_part_child_faults(c: TypeEntry) -> bool
    decreases c, 2nat,
{
    if c.tag == DW_TAG_MEMBER {
        member_faults(c)
    } else if c.tag == DW_TAG_VARIANT {
        variant_faults(c)
    } else {
        true
    }
}

/// A variant has exactly one child, a member.
pub open spec fn variant_faults(e: TypeEntry) -> bool
    decreases e, 1nat,
{
    ||| attr_bad(e.accessibility)
    ||| attr_bad(e.discr_value)
    ||| e.children@.len() != 1
    ||| e.children@[0].tag != DW_TAG_MEMBER
    ||| member_faults(e.children@[0])
}

pub open spec fn subroutine_faults(e: TypeEntry) -> bool
    decreases e, 1nat,
{
    ||| attr_bad(e.accessibility)
    ||| attr_bad(e.address_class)
    ||| attr_bad(e.alignment)
    ||| attr_bad(e.name)
    ||| attr_bad(e.linkage_name)
    ||| type_faults(e, false)
}


// What reading gives.

/// `t` is what reading the `type` attribute of `e` gives: the type of the
/// entry it refers to, or none.
pub open spec fn type_parses_to(e: TypeEntry, t: Option<DebuggerType>) -> bool
    decreases e, 0nat,
{
    match e.type_ref {
        TypeRef::Entry(x) => t matches Some(y) && parses_to(*x, y),
        _ => t is None,
    }
}

/// `t` is what reading `e` as a type gives (see [`parse_type_node`]).
pub open spec fn parses_to(e: TypeEntry, t: DebuggerType) -> bool
    decreases e, 2nat,
{
    if e.tag == DW_TAG_BASE_TYPE {
        t matches DebuggerType::BaseType(b) && base_parses_to(e, b)
    } else if e.tag == DW_TAG_POINTER_TYPE {
        t matches DebuggerType::PointerType(p) && pointer_parses_to(e, p)
    } else if e.tag == DW_TAG_ARRAY_TYPE {
        t matches DebuggerType::ArrayType(a) && array_parses_to(e, a)
    } else if e.tag == DW_TAG_STRUCTURE_TYPE {
        t matches DebuggerType::StructuredType(st) && structure_parses_to(e, st)
    } else if e.tag == DW_TAG_UNION_TYPE {
        t matches DebuggerType::UnionType(u) && union_parses_to(e, u)
    } else if e.tag == DW_TAG_MEMBER {
        t matches DebuggerType::MemberType(m) && member_parses_to(e, m)
    } else if e.tag == DW_TAG_ENUMERATION_TYPE {
        t matches DebuggerType::EnumerationType(en) && enumeration_parses_to(e, en)
    } else if e.tag == DW_TAG_STRING_TYPE {
        t matches DebuggerType::StringType(sty) && string_parses_to(e, sty)
    } else if e.tag == DW_TAG_GENERIC_SUBRANGE {
        t matches DebuggerType::GenericSubrangeType(g) && generic_subrange_parses_to(e, g)
    } else if e.tag == DW_TAG_TEMPLATE_TYPE_PARAMETER {
        t matches DebuggerType::TemplateTypeParameter(tp) && template_parses_to(e, tp)
    } else if e.tag == DW_TAG_VARIANT_PART {
        t matches DebuggerType::VariantPart(vp) && variant_part_parses_to(e, vp)
    } else if e.tag == DW_TAG_SUBROUTINE_TYPE {
        t matches DebuggerType::SubroutineType(sr) && subroutine_parses_to(e, sr)
    } else if e.tag == DW_TAG_SUBPROGRAM {
        t matches DebuggerType::Subprogram(sp) && subprogram_parses_to(e, sp)
    } else {
        false
    }
}

pub open spec fn base_parses_to(e: TypeEntry, b: BaseType) -> bool {
    &&& b.name == attr_of(e.name)
    &&& Some(b.encoding) == attr_of(e.encoding)
    &&& b.byte_size == attr_of(e.byte_size)
    &&& b.bit_size == attr_of(e.bit_size)
    &&& b.data_bit_offset == attr_of(e.data_bit_offset)
    &&& b.alignment == attr_of(e.alignment)
}

pub open spec fn pointer_parses_to(e: TypeEntry, p: PointerType) -> bool
    decreases e, 1nat,
{
    &&& p.address_class == attr_of(e.address_class)
    &&& p.alignment == attr_of(e.alignment)
    &&& p.bit_size == attr_of(e.bit_size)
    &&& p.byte_size == attr_of(e.byte_size)
    &&& p.name == attr_of(e.name)
    &&& type_parses_to(e, Some(*p.type_))
}

pub open spec fn member_parses_to(e: TypeEntry, m: MemberType) -> bool
    decreases e, 1nat,
{
    &&& m.accessibility == attr_of(e.accessibility)
    &&& m.alignment == attr_of(e.alignment)
    &&& m.artificial == attr_of(e.artificial)
    &&& m.bit_size == attr_of(e.bit_size)
    &&& m.byte_size == attr_of(e.byte_size)
    &&& m.data_bit_offset == attr_of(e.data_bit_offset)
    &&& m.data_member_location == attr_of(e.data_member_location)
    &&& m.mutable == attr_of(e.mutable)
    &&& m.name == attr_of(e.name)
    &&& type_parses_to(e, Some(*m.type_))
}

/// `ts` are the children of `e`, each read as a type.
pub open spec fn children_parse_to(e: TypeEntry, ts: Seq<Box<DebuggerType>>) -> bool
    decreases e, 0nat,
{
    &&& ts.len() == e.children@.len()
    &&& forall|i: int| 0 <= i < ts.len() ==> parses_to(#[trigger] e.children@[i], *ts[i])
}

pub open spec fn structure_parses_to(e: TypeEntry, st: StructuredType) -> bool
    decreases e, 1nat,
{
    &&& st.alignment == attr_of(e.alignment)
    &&& st.bit_size == attr_of(e.bit_size)
    &&& st.byte_size == attr_of(e.byte_size)
    &&& st.name == attr_of(e.name)
    &&& children_parse_to(e, st.children@)
}

pub open spec fn union_parses_to(e: TypeEntry, u: UnionType) -> bool
    decreases e, 1nat,
{
    &&& u.alignment == attr_of(e.alignment)
    &&& u.bit_size == attr_of(e.bit_size)
    &&& u.byte_size == attr_of(e.byte_size)
    &&& u.name == attr_of(e.name)
    &&& children_parse_to(e, u.children@)
}

/// An array's dimension is its first child, read as a subrange or an
/// enumeration; an array without children has none.
pub open spec fn array_parses_to(e: TypeEntry, a: ArrayType) -> bool
    decreases e, 1nat,
{
    &&& a.alignment == attr_of(e.alignment)
    &&& a.bit_size == attr_of(e.bit_size)
    &&& a.byte_size == attr_of(e.byte_size)
    &&& a.name == attr_of(e.name)
    &&& type_parses_to(e, Some(*a.type_))
    &&& if e.children@.len() == 0 {
        a.dimensions@.len() == 0
    } else {
        &&& a.dimensions@.len() == 1
        &&& if e.children@[0].tag == DW_TAG_SUBRANGE_TYPE {
            a.dimensions@[0] matches ArrayDimension::SubrangeType(sr) && subrange_parses_to(
                e.children@[0],
                sr,
            )
        } else {
            a.dimensions@[0] matches ArrayDimension::EnumerationType(en) && enumeration_parses_to(
                e.children@[0],
                en,
            )
        }
    }
}

/// An enumeration's enumerators and methods are its enumerator and subprogram
/// children, in order.
pub open spec fn enumeration_parses_to(e: TypeEntry, en: EnumerationType) -> bool
    decreases e, 1nat,
{
    let cs = e.children@;
    &&& en.accessibility == attr_of(e.accessibility)
    &&& en.alignment == attr_of(e.alignment)
    &&& en.bit_size == attr_of(e.bit_size)
    &&& en.byte_size == attr_of(e.byte_size)
    &&& en.enum_class == attr_of(e.enum_class)
    &&& en.name == attr_of(e.name)
    &&& type_parses_to(e, *en.type_)
    &&& en.enumerations@.len() == tag_rank(cs, DW_TAG_ENUMERATOR, cs.len() as int)
    &&& forall|i: int|
        0 <= i < cs.len() && (#[trigger] cs[i]).tag == DW_TAG_ENUMERATOR ==> enumerator_parses_to(
            cs[i],
            en.enumerations@[tag_rank(cs, DW_TAG_ENUMERATOR, i) as int],
        )
    &&& en.methods@.len() == tag_rank(cs, DW_TAG_SUBPROGRAM, cs.len() as int)
    &&& forall|i: int|
        0 <= i < cs.len() && (#[trigger] cs[i]).tag == DW_TAG_SUBPROGRAM ==> subprogram_parses_to(
            cs[i],
            en.methods@[tag_rank(cs, DW_TAG_SUBPROGRAM, i) as int],
        )
}

pub open spec fn enumerator_parses_to(c: TypeEntry, x: Enumerator) -> bool {
    Some(x.name) == attr_of(c.name) && Some(x.const_value) == attr_of(c.const_value)
}

pub open spec fn subprogram_parses_to(c: TypeEntry, sp: Subprogram) -> bool {
    sp.name == attr_of(c.name) && sp.linkage_name == attr_of(c.linkage_name)
}

pub open spec fn string_parses_to(e: TypeEntry, s: StringType) -> bool {
    &&& s.accessibility == attr_of(e.accessibility)
    &&& s.alignment == attr_of(e.alignment)
    &&& s.bit_size == attr_of(e.bit_size)
    &&& s.byte_size == attr_of(e.byte_size)
    &&& s.name == attr_of(e.name)
    &&& s.string_length == attr_of(e.string_length)
    &&& s.string_length_bit_size == attr_of(e.string_length_bit_size)
    &&& s.string_length_byte_size == attr_of(e.string_length_byte_size)
}

pub open spec fn subrange_parses_to(e: TypeEntry, s: SubrangeType) -> bool
    decreases e, 1nat,
{
    &&& s.accessibility == attr_of(e.accessibility)
    &&& s.alignment == attr_of(e.alignment)
    &&& s.bit_size == attr_of(e.bit_size)
    &&& s.byte_size == attr_of(e.byte_size)
    &&& s.count == attr_of(e.count)
    &&& s.lower_bound == attr_of(e.lower_bound)
    &&& s.name == attr_of(e.name)
    &&& type_parses_to(e, *s.type_)
    &&& s.upper_bound == attr_of(e.upper_bound)
}

pub open spec fn generic_subrange_parses_to(e: TypeEntry, s: GenericSubrangeType) -> bool
    decreases e, 1nat,
{
    &&& s.accessibility == attr_of(e.accessibility)
    &&& s.alignment == attr_of(e.alignment)
    &&& s.bit_size == attr_of(e.bit_size)
    &&& s.byte_size == attr_of(e.byte_size)
    &&& s.count == attr_of(e.count)
    &&& s.lower_bound == attr_of(e.lower_bound)
    &&& s.name == attr_of(e.name)
    &&& type_parses_to(e, *s.type_)
    &&& s.upper_bound == attr_of(e.upper_bound)
}

pub open spec fn template_parses_to(e: TypeEntry, tp: TemplateTypeParameter) -> bool
    decreases e, 1nat,
{
    tp.name == attr_of(e.name) && type_parses_to(e, Some(*tp.type_))
}

/// A variant part's member is its member child, if it has one; its variants
/// are its variant children, in order.
pub open spec fn variant_part_parses_to(e: TypeEntry, vp: VariantPart) -> bool
    decreases e, 1nat,
{
    let cs = e.children@;
    &&& vp.accessibility == attr_of(e.accessibility)
    &&& (tag_rank(cs, DW_TAG_MEMBER, cs.len() as int) == 0 ==> vp.member is None)
    &&& forall|i: int|
        0 <= i < cs.len() && (#[trigger] cs[i]).tag == DW_TAG_MEMBER ==> (vp.member matches Some(m)
            && member_parses_to(cs[i], m))
    &&& vp.variants@.len() == tag_rank(cs, DW_TAG_VARIANT, cs.len() as int)
    &&& forall|i: int|
        0 <= i < cs.len() && (#[trigger] cs[i]).tag == DW_TAG_VARIANT ==> variant_parses_to(
            cs[i],
            vp.variants@[tag_rank(cs, DW_TAG_VARIANT, i) as int],
        )
}

/// A variant's member is its only child.
pub open spec fn variant_parses_to(e: TypeEntry, v: Variant) -> bool
    decreases e, 1nat,
{
    &&& v.accessibility == attr_of(e.accessibility)
    &&& v.discr_value == attr_of(e.discr_value)
    &&& e.children@.len() == 1
    &&& member_parses_to(e.children@[0], v.member)
}

pub open spec fn subroutine_parses_to(e: TypeEntry, sr: SubroutineType) -> bool
    decreases e, 1nat,
{
    &&& sr.accessibility == attr_of(e.accessibility)
    &&& sr.address_class == attr_of(e.address_class)
    &&& sr.alignment == attr_of(e.alignment)
    &&& sr.name == attr_of(e.name)
    &&& sr.linkage_name == attr_of(e.linkage_name)
    &&& type_parses_to(e, *sr.type_)
}


proof fn lemma_tag_rank_mono(cs: Seq<TypeEntry>, tag: u16, i: int, j: int)
    requires
        i <= j,
    ensures
        tag_rank(cs, tag, i) <= tag_rank(cs, tag, j),
    decreases j - i,
{
    if i < j {
        lemma_tag_rank_mono(cs, tag, i, j - 1);
    }
}

// Reading.

fn read_attr<T: Copy>(a: &Attr<T>) -> (r: Result<Option<T>, TypeParseError>)
    ensures
        r is Err <==> attr_bad(*a),
        r matches Ok(v) ==> v == attr_of(*a),
{
    match a {
        Attr::Absent => Ok(None),
        Attr::Value(v) => Ok(Some(*v)),
        Attr::OtherForm => Err(TypeParseError::NotReadable),
    }
}

fn read_string(a: &Attr<String>) -> (r: Result<Option<String>, TypeParseError>)
    ensures
        r is Err <==> attr_bad(*a),
        r matches Ok(v) ==> v == attr_of(*a),
{
    match a {
        Attr::Absent => Ok(None),
        Attr::Value(v) => Ok(Some(v.clone())),
        Attr::OtherForm => Err(TypeParseError::NotReadable),
    }
}

/// Reads the `type` attribute of an entry: the type of the entry it refers
/// to, or none when it has none or the reference leads nowhere.
pub fn type_attribute(e: &TypeEntry) -> (r: Result<Option<DebuggerType>, TypeParseError>)
    ensures
        r is Err <==> type_faults(*e, false),
        r matches Ok(t) ==> type_parses_to(*e, t),
    decreases e, 0nat,
{
    match &e.type_ref {
        TypeRef::Absent => Ok(None),
        TypeRef::Unresolved => Ok(None),
        TypeRef::OtherForm => Err(TypeParseError::NotReadable),
        TypeRef::Entry(t) => match parse_type_node(t) {
            Ok(x) => Ok(Some(x)),
            Err(er) => Err(er),
        },
    }
}

fn needed_type(e: &TypeEntry) -> (r: Result<DebuggerType, TypeParseError>)
    ensures
        r is Err <==> type_faults(*e, true),
        r matches Ok(t) ==> type_parses_to(*e, Some(t)),
    decreases e, 1nat,
{
    match type_attribute(e) {
        Ok(Some(t)) => Ok(t),
        Ok(None) => Err(TypeParseError::NotReadable),
        Err(er) => Err(er),
    }
}

/// Reads an entry as a type, by its tag (see [`parses_to`]); entries of other
/// tags, such as subranges, variants and enumerators, are not read on their
/// own.
pub fn parse_type_node(e: &TypeEntry) -> (r: Result<DebuggerType, TypeParseError>)
    ensures
        r is Err <==> node_faults(*e),
        r matches Ok(t) ==> parses_to(*e, t),
    decreases e, 3nat,
{
    if e.tag == DW_TAG_BASE_TYPE {
        match parse_base_type(e) {
            Ok(b) => Ok(DebuggerType::BaseType(b)),
            Err(er) => Err(er),
        }
    } else if e.tag == DW_TAG_POINTER_TYPE {
        match parse_pointer_type(e) {
            Ok(p) => Ok(DebuggerType::PointerType(p)),
            Err(er) => Err(er),
        }
    } else if e.tag == DW_TAG_ARRAY_TYPE {
        match parse_array_type(e) {
            Ok(a) => Ok(DebuggerType::ArrayType(a)),
            Err(er) => Err(er),
        }
    } else if e.tag == DW_TAG_STRUCTURE_TYPE {
        match parse_structure_type(e) {
            Ok(st) => Ok(DebuggerType::StructuredType(st)),
            Err(er) => Err(er),
        }
    } else if e.tag == DW_TAG_UNION_TYPE {
        match parse_union_type(e) {
            Ok(u) => Ok(DebuggerType::UnionType(u)),
            Err(er) => Err(er),
        }
    } else if e.tag == DW_TAG_MEMBER {
        match parse_member_type(e) {
            Ok(m) => Ok(DebuggerType::MemberType(m)),
            Err(er) => Err(er),
        }
    } else if e.tag == DW_TAG_ENUMERATION_TYPE {
        match parse_enumeration_type(e) {
            Ok(en) => Ok(DebuggerType::EnumerationType(en)),
            Err(er) => Err(er),
        }
    } else if e.tag == DW_TAG_STRING_TYPE {
        match parse_string_type(e) {
            Ok(sty) => Ok(DebuggerType::StringType(sty)),
            Err(er) => Err(er),
        }
    } else if e.tag == DW_TAG_GENERIC_SUBRANGE {
        match parse_generic_subrange_type(e) {
            Ok(g) => Ok(DebuggerType::GenericSubrangeType(g)),
            Err(er) => Err(er),
        }
    } else if e.tag == DW_TAG_TEMPLATE_TYPE_PARAMETER {
        match parse_template_type_parameter(e) {
            Ok(tp) => Ok(DebuggerType::TemplateTypeParameter(tp)),
            Err(er) => Err(er),
        }
    } else if e.tag == DW_TAG_VARIANT_PART {
        match parse_variant_part(e) {
            Ok(vp) => Ok(DebuggerType::VariantPart(vp)),
            Err(er) => Err(er),
        }
    } else if e.tag == DW_TAG_SUBROUTINE_TYPE {
        match parse_subroutine_type(e) {
            Ok(sr) => Ok(DebuggerType::SubroutineType(sr)),
            Err(er) => Err(er),
        }
    } else if e.tag == DW_TAG_SUBPROGRAM {
        match parse_subprogram(e) {
            Ok(sp) => Ok(DebuggerType::Subprogram(sp)),
            Err(er) => Err(er),
        }
    } else {
        Err(TypeParseError::NotReadable)
    }
}

pub fn parse_base_type(e: &TypeEntry) -> (r: Result<BaseType, TypeParseError>)
    ensures
        r is Err <==> base_faults(*e),
        r matches Ok(b) ==> base_parses_to(*e, b),
{
    let name = read_string(&e.name)?;
    let encoding = match read_attr(&e.encoding)? {
        Some(v) => v,
        None => {
            return Err(TypeParseError::NotReadable);
        },
    };
    let byte_size = read_attr(&e.byte_size)?;
    let bit_size = read_attr(&e.bit_size)?;
    let data_bit_offset = read_attr(&e.data_bit_offset)?;
    let alignment = read_attr(&e.alignment)?;
    Ok(BaseType { name, encoding, byte_size, bit_size, data_bit_offset, alignment })
}

pub fn parse_pointer_type(e: &TypeEntry) -> (r: Result<PointerType, TypeParseError>)
    ensures
        r is Err <==> pointer_faults(*e),
        r matches Ok(p) ==> pointer_parses_to(*e, p),
    decreases e, 2nat,
{
    let address_class = read_attr(&e.address_class)?;
    let alignment = read_attr(&e.alignment)?;
    let bit_size = read_attr(&e.bit_size)?;
    let byte_size = read_attr(&e.byte_size)?;
    let name = read_string(&e.name)?;
    let t = needed_type(e)?;
    Ok(PointerType { address_class, alignment, bit_size, byte_size, name, type_: Box::new(t) })
}

pub fn parse_member_type(e: &TypeEntry) -> (r: Result<MemberType, TypeParseError>)
    ensures
        r is Err <==> member_faults(*e),
        r matches Ok(m) ==> member_parses_to(*e, m),
    decreases e, 2nat,
{
    let accessibility = read_attr(&e.accessibility)?;
    let alignment = read_attr(&e.alignment)?;
    let artificial = read_attr(&e.artificial)?;
    let bit_size = read_attr(&e.bit_size)?;
    let byte_size = read_attr(&e.byte_size)?;
    let data_bit_offset = read_attr(&e.data_bit_offset)?;
    let data_member_location = read_attr(&e.data_member_location)?;
    let mutable = read_attr(&e.mutable)?;
    let name = read_string(&e.name)?;
    let t = needed_type(e)?;
    Ok(
        MemberType {
            accessibility,
            alignment,
            artificial,
            bit_size,
            byte_size,
            data_bit_offset,
            data_member_location,
            mutable,
            name,
            type_: Box::new(t),
        },
    )
}


fn parse_children(e: &TypeEntry) -> (r: Result<Vec<Box<DebuggerType>>, TypeParseError>)
    ensures
        r is Err <==> exists|i: int| 0 <= i < e.children@.len() && node_faults(#[trigger] e.children@[i]),
        r matches Ok(v) ==> children_parse_to(*e, v@),
    decreases e, 1nat,
{
    let mut children: Vec<Box<DebuggerType>> = Vec::new();
    let mut i: usize = 0;
    while i < e.children.len()
        invariant
            i <= e.children@.len(),
            children@.len() == i,
            forall|k: int| 0 <= k < i ==> parses_to(#[trigger] e.children@[k], *children@[k]),
            forall|k: int| 0 <= k < i ==> !node_faults(#[trigger] e.children@[k]),
        decreases e.children@.len() - i,
    {
        match parse_type_node(&e.children[i]) {
            Ok(t) => {
                children.push(Box::new(t));
            },
            Err(er) => {
                return Err(er);
            },
        }
        i += 1;
    }
    Ok(children)
}

pub fn parse_structure_type(e: &TypeEntry) -> (r: Result<StructuredType, TypeParseError>)
    ensures
        r is Err <==> aggregate_faults(*e),
        r matches Ok(st) ==> structure_parses_to(*e, st),
    decreases e, 2nat,
{
    let alignment = read_attr(&e.alignment)?;
    let bit_size = read_attr(&e.bit_size)?;
    let byte_size = read_attr(&e.byte_size)?;
    let name = read_string(&e.name)?;
    let children = parse_children(e)?;
    Ok(StructuredType { alignment, bit_size, byte_size, children, name })
}

pub fn parse_union_type(e: &TypeEntry) -> (r: Result<UnionType, TypeParseError>)
    ensures
        r is Err <==> aggregate_faults(*e),
        r matches Ok(u) ==> union_parses_to(*e, u),
    decreases e, 2nat,
{
    let alignment = read_attr(&e.alignment)?;
    let bit_size = read_attr(&e.bit_size)?;
    let byte_size = read_attr(&e.byte_size)?;
    let name = read_string(&e.name)?;
    let children = parse_children(e)?;
    Ok(UnionType { alignment, bit_size, byte_size, children, name })
}

pub fn parse_array_type(e: &TypeEntry) -> (r: Result<ArrayType, TypeParseError>)
    ensures
        r is Err <==> array_faults(*e),
        r matches Ok(a) ==> array_parses_to(*e, a),
    decreases e, 2nat,
{
    let alignment = read_attr(&e.alignment)?;
    let bit_size = read_attr(&e.bit_size)?;
    let byte_size = read_attr(&e.byte_size)?;
    let name = read_string(&e.name)?;
    let t = needed_type(e)?;
    let mut dimensions: Vec<ArrayDimension> = Vec::new();
    if e.children.len() > 0 {
        let c = &e.children[0];
        if c.tag == DW_TAG_SUBRANGE_TYPE {
            let sr = parse_subrange_type(c)?;
            dimensions.push(ArrayDimension::SubrangeType(sr));
        } else if c.tag == DW_TAG_ENUMERATION_TYPE {
            let en = parse_enumeration_type(c)?;
            dimensions.push(ArrayDimension::EnumerationType(en));
        } else {
            return Err(TypeParseError::NotReadable);
        }
    }
    Ok(ArrayType { alignment, bit_size, byte_size, name, type_: Box::new(t), dimensions })
}

pub fn parse_enumeration_type(e: &TypeEntry) -> (r: Result<EnumerationType, TypeParseError>)
    ensures
        r is Err <==> enumeration_faults(*e),
        r matches Ok(en) ==> enumeration_parses_to(*e, en),
    decreases e, 2nat,
{
    let accessibility = read_attr(&e.accessibility)?;
    let alignment = read_attr(&e.alignment)?;
    let bit_size = read_attr(&e.bit_size)?;
    let byte_size = read_attr(&e.byte_size)?;
    let enum_class = read_attr(&e.enum_class)?;
    let name = read_string(&e.name)?;
    let t = type_attribute(e)?;
    let ghost cs = e.children@;
    let mut enumerations: Vec<Enumerator> = Vec::new();
    let mut methods: Vec<Subprogram> = Vec::new();
    let mut i: usize = 0;
    while i < e.children.len()
        invariant
            cs == e.children@,
            i <= cs.len(),
            enumerations@.len() == tag_rank(cs, DW_TAG_ENUMERATOR, i as int),
            methods@.len() == tag_rank(cs, DW_TAG_SUBPROGRAM, i as int),
            forall|k: int|
                0 <= k < i && (#[trigger] cs[k]).tag == DW_TAG_ENUMERATOR ==> enumerator_parses_to(
                    cs[k],
                    enumerations@[tag_rank(cs, DW_TAG_ENUMERATOR, k) as int],
                ),
            forall|k: int|
                0 <= k < i && (#[trigger] cs[k]).tag == DW_TAG_SUBPROGRAM ==> subprogram_parses_to(
                    cs[k],
                    methods@[tag_rank(cs, DW_TAG_SUBPROGRAM, k) as int],
                ),
            forall|k: int| 0 <= k < i ==> !enumeration_child_faults(#[trigger] cs[k]),
        decreases cs.len() - i,
    {
        proof {
            assert forall|k: int| 0 <= k < i && (#[trigger] cs[k]).tag == DW_TAG_ENUMERATOR implies tag_rank(
                cs,
                DW_TAG_ENUMERATOR,
                k,
            ) < tag_rank(cs, DW_TAG_ENUMERATOR, i as int) by {
                lemma_tag_rank_mono(cs, DW_TAG_ENUMERATOR, k + 1, i as int);
            }
            assert forall|k: int| 0 <= k < i && (#[trigger] cs[k]).tag == DW_TAG_SUBPROGRAM implies tag_rank(
                cs,
                DW_TAG_SUBPROGRAM,
                k,
            ) < tag_rank(cs, DW_TAG_SUBPROGRAM, i as int) by {
                lemma_tag_rank_mono(cs, DW_TAG_SUBPROGRAM, k + 1, i as int);
            }
        }
        let c = &e.children[i];
        if c.tag == DW_TAG_ENUMERATOR {
            let x = parse_enumerator(c)?;
            enumerations.push(x);
        } else if c.tag == DW_TAG_SUBPROGRAM {
            let sp = parse_subprogram(c)?;
            methods.push(sp);
        } else {
            return Err(TypeParseError::NotReadable);
        }
        i += 1;
    }
    Ok(
        EnumerationType {
            accessibility,
            alignment,
            bit_size,
            byte_size,
            enum_class,
            enumerations,
            methods,
            name,
            type_: Box::new(t),
        },
    )
}

pub fn parse_enumerator(c: &TypeEntry) -> (r: Result<Enumerator, TypeParseError>)
    ensures
        r is Err <==> enumerator_faults(*c),
        r matches Ok(x) ==> enumerator_parses_to(*c, x),
{
    let name = match &c.name {
        Attr::Value(n) => n.clone(),
        _ => {
            return Err(TypeParseError::NotReadable);
        },
    };
    let const_value = match &c.const_value {
        Attr::Value(v) => *v,
        _ => {
            return Err(TypeParseError::NotReadable);
        },
    };
    Ok(Enumerator { name, const_value })
}

pub fn parse_subprogram(c: &TypeEntry) -> (r: Result<Subprogram, TypeParseError>)
    ensures
        r is Err <==> subprogram_faults(*c),
        r matches Ok(sp) ==> subprogram_parses_to(*c, sp),
{
    let name = read_string(&c.name)?;
    let linkage_name = read_string(&c.linkage_name)?;
    Ok(Subprogram { name, linkage_name })
}

pub fn parse_string_type(e: &TypeEntry) -> (r: Result<StringType, TypeParseError>)
    ensures
        r is Err <==> string_faults(*e),
        r matches Ok(sty) ==> string_parses_to(*e, sty),
{
    let accessibility = read_attr(&e.accessibility)?;
    let alignment = read_attr(&e.alignment)?;
    let bit_size = read_attr(&e.bit_size)?;
    let byte_size = read_attr(&e.byte_size)?;
    let name = read_string(&e.name)?;
    let string_length = read_attr(&e.string_length)?;
    let string_length_bit_size = read_attr(&e.string_length_bit_size)?;
    let string_length_byte_size = read_attr(&e.string_length_byte_size)?;
    Ok(
        StringType {
            accessibility,
            alignment,
            bit_size,
            byte_size,
            name,
            string_length,
            string_length_bit_size,
            string_length_byte_size,
        },
    )
}

pub fn parse_subrange_type(e: &TypeEntry) -> (r: Result<SubrangeType, TypeParseError>)
    ensures
        r is Err <==> subrange_faults(*e),
        r matches Ok(sr) ==> subrange_parses_to(*e, sr),
    decreases e, 2nat,
{
    let accessibility = read_attr(&e.accessibility)?;
    let alignment = read_attr(&e.alignment)?;
    let bit_size = read_attr(&e.bit_size)?;
    let byte_size = read_attr(&e.byte_size)?;
    let count = read_attr(&e.count)?;
    let lower_bound = read_attr(&e.lower_bound)?;
    let name = read_string(&e.name)?;
    let t = type_attribute(e)?;
    let upper_bound = read_attr(&e.upper_bound)?;
    Ok(
        SubrangeType {
            accessibility,
            alignment,
            bit_size,
            byte_size,
            count,
            lower_bound,
            name,
            type_: Box::new(t),
            upper_bound,
        },
    )
}

pub fn parse_generic_subrange_type(e: &TypeEntry) -> (r: Result<GenericSubrangeType, TypeParseError>)
    ensures
        r is Err <==> subrange_faults(*e),
        r matches Ok(g) ==> generic_subrange_parses_to(*e, g),
    decreases e, 2nat,
{
    let accessibility = read_attr(&e.accessibility)?;
    let alignment = read_attr(&e.alignment)?;
    let bit_size = read_attr(&e.bit_size)?;
    let byte_size = read_attr(&e.byte_size)?;
    let count = read_attr(&e.count)?;
    let lower_bound = read_attr(&e.lower_bound)?;
    let name = read_string(&e.name)?;
    let t = type_attribute(e)?;
    let upper_bound = read_attr(&e.upper_bound)?;
    Ok(
        GenericSubrangeType {
            accessibility,
            alignment,
            bit_size,
            byte_size,
            count,
            lower_bound,
            name,
            type_: Box::new(t),
            upper_bound,
        },
    )
}

pub fn parse_template_type_parameter(e: &TypeEntry) -> (r: Result<TemplateTypeParameter, TypeParseError>)
    ensures
        r is Err <==> template_faults(*e),
        r matches Ok(tp) ==> template_parses_to(*e, tp),
    decreases e, 2nat,
{
    let name = read_string(&e.name)?;
    let t = needed_type(e)?;
    Ok(TemplateTypeParameter { name, type_: Box::new(t) })
}

pub fn parse_variant_part(e: &TypeEntry) -> (r: Result<VariantPart, TypeParseError>)
    ensures
        r is Err <==> variant_part_faults(*e),
        r matches Ok(vp) ==> variant_part_parses_to(*e, vp),
    decreases e, 2nat,
{
    let accessibility = read_attr(&e.accessibility)?;
    let ghost cs = e.children@;
    let mut member: Option<MemberType> = None;
    let mut variants: Vec<Variant> = Vec::new();
    let mut i: usize = 0;
    while i < e.children.len()
        invariant
            cs == e.children@,
            i <= cs.len(),
            !attr_bad(e.accessibility),
            tag_rank(cs, DW_TAG_MEMBER, i as int) <= 1,
            member is None <==> tag_rank(cs, DW_TAG_MEMBER, i as int) == 0,
            forall|k: int|
                0 <= k < i && (#[trigger] cs[k]).tag == DW_TAG_MEMBER ==> (member matches Some(m)
                    && member_parses_to(cs[k], m)),
            variants@.len() == tag_rank(cs, DW_TAG_VARIANT, i as int),
            forall|k: int|
                0 <= k < i && (#[trigger] cs[k]).tag == DW_TAG_VARIANT ==> variant_parses_to(
                    cs[k],
                    variants@[tag_rank(cs, DW_TAG_VARIANT, k) as int],
                ),
            forall|k: int| 0 <= k < i ==> !variant_part_child_faults(#[trigger] cs[k]),
        decreases cs.len() - i,
    {
        proof {
            assert forall|k: int| 0 <= k < i && (#[trigger] cs[k]).tag == DW_TAG_VARIANT implies tag_rank(
                cs,
                DW_TAG_VARIANT,
                k,
            ) < tag_rank(cs, DW_TAG_VARIANT, i as int) by {
                lemma_tag_rank_mono(cs, DW_TAG_VARIANT, k + 1, i as int);
            }
        }
        let c = &e.children[i];
        if c.tag == DW_TAG_MEMBER {
            if member.is_some() {
                proof {
                    lemma_tag_rank_mono(cs, DW_TAG_MEMBER, i + 1, cs.len() as int);
                }
                return Err(TypeParseError::NotReadable);
            }
            let m = parse_member_type(c)?;
            member = Some(m);
        } else if c.tag == DW_TAG_VARIANT {
            let v = parse_variant(c)?;
            variants.push(v);
        } else {
            return Err(TypeParseError::NotReadable);
        }
        i += 1;
    }
    Ok(VariantPart { accessibility, member, variants })
}

pub fn parse_variant(e: &TypeEntry) -> (r: Result<Variant, TypeParseError>)
    ensures
        r is Err <==> variant_faults(*e),
        r matches Ok(v) ==> variant_parses_to(*e, v),
    decreases e, 2nat,
{
    let accessibility = read_attr(&e.accessibility)?;
    let discr_value = read_attr(&e.discr_value)?;
    if e.children.len() != 1 {
        return Err(TypeParseError::NotReadable);
    }
    let c = &e.children[0];
    if c.tag != DW_TAG_MEMBER {
        return Err(TypeParseError::NotReadable);
    }
    let member = parse_member_type(c)?;
    Ok(Variant { accessibility, discr_value, member })
}

pub fn parse_subroutine_type(e: &TypeEntry) -> (r: Result<SubroutineType, TypeParseError>)
    ensures
        r is Err <==> subroutine_faults(*e),
        r matches Ok(sr) ==> subroutine_parses_to(*e, sr),
    decreases e, 2nat,
{
    let accessibility = read_attr(&e.accessibility)?;
    let address_class = read_attr(&e.address_class)?;
    let alignment = read_attr(&e.alignment)?;
    let name = read_string(&e.name)?;
    let linkage_name = read_string(&e.linkage_name)?;
    let t = type_attribute(e)?;
    Ok(SubroutineType { accessibility, address_class, alignment, name, linkage_name, type_: Box::new(t) })
}

} // verus!
