use std::sync::Arc;

use vstd::prelude::*;
use vstd::string::StrSliceExecFns;
use vstd::string::StringExecFns;

use crate::base_type::BaseType;
use crate::dyn_layout::{DynField, DynLayout};

verus! {

/// A scalar type as a compiled shader module declares it.
#[derive(Clone, Copy, Debug, PartialEq, Eq)]
pub enum ShaderScalar {
    Void,
    Boolean,
    Integer { bits: u32, is_signed: bool },
    Float { bits: u32 },
}

/// A type as a compiled shader module declares it, as far as layouts need it.
#[derive(Debug)]
pub enum ShaderType {
    Scalar(ShaderScalar),
    Vector { scalar: ShaderScalar, count: u32 },
    /// `columns` vectors of `rows` scalars each.
    Matrix { scalar: ShaderScalar, columns: u32, rows: u32 },
    Array { element: Box<ShaderType> },
    Struct(ShaderStruct),
    /// Images, samplers, pointers and the other kinds that hold no plain data.
    Opaque,
}

/// A struct type of a shader module, with its members in declaration order.
#[derive(Debug)]
pub struct ShaderStruct {
    pub name: Option<String>,
    pub members: Vec<ShaderMember>,
}

/// One member of a shader struct, with the byte offset the shader compiler chose.
#[derive(Debug)]
pub struct ShaderMember {
    pub name: Option<String>,
    pub offset: Option<usize>,
    pub ty: ShaderType,
}

/// Why no layout could be derived from a shader module.
#[derive(Clone, Debug, PartialEq)]
pub enum ReflectError {
    /// No struct of the requested name is reachable from the module's resources.
    StructNotFound,
    /// A member's offset is not declared.
    MissingOffset { member: String },
    /// A member's offset does not fit the 32 bits a field offset has.
    OffsetOutOfRange { member: String },
    /// A member's type has no kind in the catalog.
    UnsupportedType { member: String },
}

/// The kind a non-struct shader type maps to, if it maps to one.
pub open spec fn base_of(ty: ShaderType) -> Option<BaseType> {
    match ty {
        ShaderType::Scalar(s) => match s {
            ShaderScalar::Void => Some(BaseType::Void),
            ShaderScalar::Boolean => Some(BaseType::Bool),
            ShaderScalar::Integer { bits, is_signed } => if bits == 8 {
                Some(if is_signed { BaseType::I8 } else { BaseType::U8 })
            } else if bits == 16 {
                Some(if is_signed { BaseType::I16 } else { BaseType::U16 })
            } else if bits == 32 {
                Some(if is_signed { BaseType::I32 } else { BaseType::U32 })
            } else if bits == 64 {
                Some(if is_signed { BaseType::I64 } else { BaseType::U64 })
            } else {
                None
            },
            ShaderScalar::Float { bits } => if bits == 32 {
                Some(BaseType::F32)
            } else if bits == 64 {
                Some(BaseType::F64)
            } else {
                None
            },
        },
        ShaderType::Vector { scalar, count } => match scalar {
            ShaderScalar::Integer { bits, is_signed } => if bits != 32 {
                None
            } else if count == 2 {
                Some(if is_signed { BaseType::IVec2 } else { BaseType::UVec2 })
            } else if count == 3 {
                Some(if is_signed { BaseType::IVec3 } else { BaseType::UVec3 })
            } else if count == 4 {
                Some(if is_signed { BaseType::IVec4 } else { BaseType::UVec4 })
            } else {
                None
            },
            ShaderScalar::Float { bits } => if bits != 32 && bits != 64 {
                None
            } else if count == 2 {
                Some(if bits == 32 { BaseType::Vec2 } else { BaseType::DVec2 })
            } else if count == 3 {
                Some(if bits == 32 { BaseType::Vec3 } else { BaseType::DVec3 })
            } else if count == 4 {
                Some(if bits == 32 { BaseType::Vec4 } else { BaseType::DVec4 })
            } else {
                None
            },
            _ => None,
        },
        ShaderType::Matrix { scalar, columns, rows } => match scalar {
            ShaderScalar::Float { bits } => if bits != 32 || columns != rows {
                None
            } else if columns == 2 {
                Some(BaseType::Mat2)
            } else if columns == 3 {
                Some(BaseType::Mat3)
            } else if columns == 4 {
                Some(BaseType::Mat4)
            } else {
                None
            },
            _ => None,
        },
        _ => None,
    }
}

/// The kind of a member whose type is not a struct.
pub fn spirq_ty_to_dyn(ty: &ShaderType) -> (r: Option<BaseType>)
    ensures
        r == base_of(*ty),
{
    match ty {
        ShaderType::Scalar(s) => match s {
            ShaderScalar::Void => Some(BaseType::Void),
            ShaderScalar::Boolean => Some(BaseType::Bool),
            ShaderScalar::Integer { bits, is_signed } => match bits {
                8 => Some(if *is_signed { BaseType::I8 } else { BaseType::U8 }),
                16 => Some(if *is_signed { BaseType::I16 } else { BaseType::U16 }),
                32 => Some(if *is_signed { BaseType::I32 } else { BaseType::U32 }),
                64 => Some(if *is_signed { BaseType::I64 } else { BaseType::U64 }),
                _ => None,
            },
            ShaderScalar::Float { bits } => match bits {
                32 => Some(BaseType::F32),
                64 => Some(BaseType::F64),
                _ => None,
            },
        },
        ShaderType::Vector { scalar, count } => match scalar {
            ShaderScalar::Integer { bits, is_signed } => {
                if *bits != 32 {
                    None
                } else {
                    match count {
                        2 => Some(if *is_signed { BaseType::IVec2 } else { BaseType::UVec2 }),
                        3 => Some(if *is_signed { BaseType::IVec3 } else { BaseType::UVec3 }),
                        4 => Some(if *is_signed { BaseType::IVec4 } else { BaseType::UVec4 }),
                        _ => None,
                    }
                }
            },
            ShaderScalar::Float { bits } => {
                if *bits != 32 && *bits != 64 {
                    None
                } else {
                    let single = *bits == 32;
                    match count {
                        2 => Some(if single { BaseType::Vec2 } else { BaseType::DVec2 }),
                        3 => Some(if single { BaseType::Vec3 } else { BaseType::DVec3 }),
                        4 => Some(if single { BaseType::Vec4 } else { BaseType::DVec4 }),
                        _ => None,
                    }
                }
            },
            _ => None,
        },
        ShaderType::Matrix { scalar, columns, rows } => match scalar {
            ShaderScalar::Float { bits } => {
                if *bits != 32 || *columns != *rows {
                    None
                } else {
                    match columns {
                        2 => Some(BaseType::Mat2),
                        3 => Some(BaseType::Mat3),
                        4 => Some(BaseType::Mat4),
                        _ => None,
                    }
                }
            },
            _ => None,
        },
        _ => None,
    }
}

/// The part of a dotted name after its last `.`; the whole name if it has none.
pub open spec fn last_segment(s: Seq<char>) -> Seq<char>
    decreases s.len(),
{
    if s.len() == 0 {
        s
    } else if s.last() == '.' {
        Seq::empty()
    } else {
        last_segment(s.drop_last()).push(s.last())
    }
}

/// The name a struct is known by: the last segment of its declared name, which
/// shader compilers may prefix with qualifiers (`type.RWStructuredBuffer.Foo`).
pub open spec fn short_name(s: ShaderStruct) -> Seq<char> {
    match s.name {
        Some(n) => last_segment(n@),
        None => Seq::empty(),
    }
}

pub fn last_segment_of(s: &str) -> (r: String)
    ensures
        r@ == last_segment(s@),
{
    let n = s.unicode_len();
    let mut i = n;
    assert(s@.subrange(0, n as int) =~= s@);
    assert(s@.subrange(n as int, n as int) =~= Seq::<char>::empty());
    while i > 0 && s.get_char(i - 1) != '.'
        invariant
            i <= n,
            n == s@.len(),
            last_segment(s@) == last_segment(s@.subrange(0, i as int)) + s@.subrange(i as int, n as int),
        decreases i,
    {
        let ghost pre = s@.subrange(0, i as int);
        assert(pre.drop_last() =~= s@.subrange(0, i - 1));
        assert(s@.subrange(i - 1, n as int) =~= seq![s@[i - 1]] + s@.subrange(i as int, n as int));
        assert(last_segment(pre) == last_segment(s@.subrange(0, i - 1)).push(s@[i - 1]));
        assert(last_segment(s@.subrange(0, i - 1)).push(s@[i - 1]) + s@.subrange(i as int, n as int)
            =~= last_segment(s@.subrange(0, i - 1)) + s@.subrange(i - 1, n as int));
        i -= 1;
    }
    assert(last_segment(s@.subrange(0, i as int)) =~= Seq::<char>::empty());
    assert(Seq::<char>::empty() + s@.subrange(i as int, n as int) =~= s@.subrange(i as int, n as int));
    String::from_str(s.substring_char(i, n))
}

fn short_name_of(s: &ShaderStruct) -> (r: String)
    ensures
        r@ == short_name(*s),
{
    match &s.name {
        Some(n) => last_segment_of(n.as_str()),
        None => String::new(),
    }
}

/// A decimal digit.
pub open spec fn digit_char(d: nat) -> char {
    if d == 0 { '0' } else if d == 1 { '1' } else if d == 2 { '2' } else if d == 3 { '3' }
    else if d == 4 { '4' } else if d == 5 { '5' } else if d == 6 { '6' } else if d == 7 { '7' }
    else if d == 8 { '8' } else { '9' }
}

/// The decimal digits of `n`, without leading zeros.
pub open spec fn decimal(n: nat) -> Seq<char>
    decreases n,
{
    if n < 10 {
        seq![digit_char(n)]
    } else {
        decimal(n / 10).push(digit_char(n % 10))
    }
}

/// The name given to the member at `index` that has none.
pub open spec fn unnamed_member(index: nat) -> Seq<char> {
    seq!['p', 'a', 'r', 'a', 'm', '_'] + decimal(index)
}

/// Relies on `format!` with `{}` on a `usize`: its decimal digits.
#[verifier::external_body]
pub(crate) fn decimal_of(index: usize) -> (r: String)
    ensures
        r@ == decimal(index as nat),
{
    format!("{index}")
}

fn param_name(index: usize) -> (r: String)
    ensures
        r@ == unnamed_member(index as nat),
{
    proof {
        reveal_strlit("param_");
    }
    let digits = decimal_of(index);
    let r = String::from_str("param_").concat(digits.as_str());
    assert(r@ =~= unnamed_member(index as nat));
    r
}

/// The name a member gets in the layout: its own, or one made from its position.
pub open spec fn member_name(m: ShaderMember, index: nat) -> Seq<char> {
    match m.name {
        Some(n) => n@,
        None => unnamed_member(index),
    }
}

fn member_name_of(m: &ShaderMember, index: usize) -> (r: String)
    ensures
        r@ == member_name(*m, index as nat),
{
    match &m.name {
        Some(n) => n.clone(),
        None => param_name(index),
    }
}

/// Size of the layout a struct maps to: its last member's offset plus that
/// member's size, counted from the struct's start.
pub open spec fn struct_size(s: ShaderStruct) -> int
    decreases s,
{
    if s.members@.len() == 0 {
        0
    } else {
        let m = s.members@[s.members@.len() - 1];
        match m.offset {
            Some(o) => o + type_size(m.ty),
            None => 0,
        }
    }
}

/// Size of the kind a member type maps to.
pub open spec fn type_size(ty: ShaderType) -> int
    decreases ty,
{
    match ty {
        ShaderType::Struct(t) => struct_size(t),
        _ => match base_of(ty) {
            Some(b) => b.spec_size() as int,
            None => 0,
        },
    }
}

/// A member of a struct placed at `base` maps to a field: its offset is declared
/// and fits 32 bits from the record's start, and its type maps.
pub open spec fn member_converts(m: ShaderMember, base: int) -> bool
    decreases m,
{
    match m.offset {
        Some(o) => base + o <= u32::MAX && match m.ty {
            ShaderType::Struct(t) => converts(t, base + o),
            _ => base_of(m.ty) is Some,
        },
        None => false,
    }
}

/// Every member of a struct placed at `base` maps to a field, recursively, and
/// the struct's size fits a `usize`.
pub open spec fn converts(s: ShaderStruct, base: int) -> bool
    decreases s,
{
    &&& forall|i: int| 0 <= i < s.members@.len() ==> member_converts(#[trigger] s.members@[i], base)
    &&& struct_size(s) <= usize::MAX
}

/// Position of the first member of `s`, placed at `base`, that does not map.
pub open spec fn first_failing(s: ShaderStruct, base: int) -> int {
    choose|i: int|
        0 <= i < s.members@.len() && !member_converts(#[trigger] s.members@[i], base) && forall|k: int|
            0 <= k < i ==> member_converts(#[trigger] s.members@[k], base)
}

/// `e` is the error for struct `s` placed at `base`: the one of the first member
/// that does not map, named as that member is; when every member maps but the
/// size does not fit, the out-of-range error of the last member.
pub open spec fn error_for(e: ReflectError, s: ShaderStruct, base: int) -> bool
    decreases s,
{
    if exists|i: int| 0 <= i < s.members@.len() && !member_converts(#[trigger] s.members@[i], base) {
        let i = first_failing(s, base);
        if 0 <= i < s.members@.len() {
            let m = s.members@[i];
            match m.offset {
                None => e matches ReflectError::MissingOffset { member } && member@ == member_name(m, i as nat),
                Some(o) => if base + o > u32::MAX {
                    e matches ReflectError::OffsetOutOfRange { member } && member@ == member_name(m, i as nat)
                } else {
                    match m.ty {
                        ShaderType::Struct(t) => error_for(e, t, base + o),
                        _ => e matches ReflectError::UnsupportedType { member } && member@ == member_name(
                            m,
                            i as nat,
                        ),
                    }
                },
            }
        } else {
            false
        }
    } else {
        s.members@.len() > 0 && (e matches ReflectError::OffsetOutOfRange { member } && member@
            == member_name(s.members@[s.members@.len() - 1], (s.members@.len() - 1) as nat))
    }
}

proof fn lemma_first_failing(s: ShaderStruct, base: int, i: int)
    requires
        0 <= i < s.members@.len(),
        !member_converts(s.members@[i], base),
        forall|k: int| 0 <= k < i ==> member_converts(#[trigger] s.members@[k], base),
    ensures
        first_failing(s, base) == i,
{
    let j = first_failing(s, base);
    assert(0 <= i < s.members@.len() && !member_converts(s.members@[i], base) && forall|k: int|
        0 <= k < i ==> member_converts(#[trigger] s.members@[k], base));
    if j < i {
        assert(member_converts(s.members@[j], base));
    }
    if i < j {
        assert(!member_converts(s.members@[i], base));
    }
}

/// `f` is what member `m` (at position `index`) of a struct placed at `base` maps
/// to: its name, its absolute offset, and its kind; a struct member maps to a
/// nested layout named by the struct's short name that describes that struct.
pub open spec fn reflects_member(f: (String, DynField), m: ShaderMember, index: nat, base: int) -> bool
    decreases m,
{
    &&& f.0@ == member_name(m, index)
    &&& m.offset matches Some(o) && f.1.offset == base + o
    &&& match m.ty {
        ShaderType::Struct(t) => match f.1.ty {
            BaseType::Struct(l) => l.name@ == short_name(t) && l.describes(t, f.1.offset as int),
            _ => false,
        },
        _ => Some(f.1.ty) == base_of(m.ty),
    }
}

impl DynLayout {
    /// The layout maps shader struct `s` placed at `base`: one field per member,
    /// in order, each as `reflects_member` says, and the struct's size.
    pub open spec fn describes(&self, s: ShaderStruct, base: int) -> bool
        decreases s,
    {
        &&& self.fields@.len() == s.members@.len()
        &&& self.size == struct_size(s)
        &&& forall|i: int|
            0 <= i < self.fields@.len() ==> reflects_member(#[trigger] self.fields@[i], s.members@[i], i as nat, base)
    }
}

/// Layout of a shader struct placed at `base` bytes into the record, with
/// absolute offsets for its members and their own members.
pub fn struct_layout(s: &ShaderStruct, layout_name: &str, base: u32) -> (r: Result<DynLayout, ReflectError>)
    ensures
        !(r matches Err(ReflectError::StructNotFound)),
        r is Ok <==> converts(*s, base as int),
        r matches Err(e) ==> error_for(e, *s, base as int),
        r matches Ok(l) ==> {
            &&& l.wf()
            &&& l.name@ == layout_name@
            &&& l.describes(*s, base as int)
        },
    decreases s,
{
    let mut fields: Vec<(String, DynField)> = Vec::new();
    let mut i: usize = 0;
    while i < s.members.len()
        invariant
            i <= s.members@.len(),
            fields@.len() == i,
            forall|j: int| 0 <= j < i ==> (#[trigger] fields@[j]).1.ty.nested_wf(),
            forall|j: int|
                0 <= j < i ==> reflects_member(#[trigger] fields@[j], s.members@[j], j as nat, base as int),
            forall|j: int| 0 <= j < i ==> base <= (#[trigger] fields@[j]).1.offset,
            forall|j: int| 0 <= j < i ==> member_converts(#[trigger] s.members@[j], base as int),
            forall|j: int|
                0 <= j < i ==> (#[trigger] fields@[j]).1.ty.spec_size() == type_size(s.members@[j].ty),
        decreases s.members@.len() - i,
    {
        let m = &s.members[i];
        let name = member_name_of(m, i);
        proof {
            if !member_converts(*m, base as int) {
                assert(!converts(*s, base as int));
                lemma_first_failing(*s, base as int, i as int);
            }
        }
        let offset = match m.offset {
            Some(o) => {
                if o > (u32::MAX - base) as usize {
                    return Err(ReflectError::OffsetOutOfRange { member: name });
                }
                base + o as u32
            },
            None => {
                return Err(ReflectError::MissingOffset { member: name });
            },
        };
        let ty = match &m.ty {
            ShaderType::Struct(inner) => {
                let inner_name = short_name_of(inner);
                match struct_layout(inner, inner_name.as_str(), offset) {
                    Ok(l) => BaseType::Struct(Arc::new(l)),
                    Err(e) => {
                        return Err(e);
                    },
                }
            },
            other => match spirq_ty_to_dyn(other) {
                Some(t) => t,
                None => {
                    return Err(ReflectError::UnsupportedType { member: name });
                },
            },
        };
        fields.push((name, DynField { offset, ty }));
        i += 1;
    }
    let size: usize = if fields.len() == 0 {
        0
    } else {
        let last = &fields[fields.len() - 1];
        proof {
            let k = fields@.len() - 1;
            assert(reflects_member(fields@[k], s.members@[k], k as nat, base as int));
            assert(fields@[k].1.ty.spec_size() == type_size(s.members@[k].ty));
        }
        match ((last.1.offset - base) as usize).checked_add(last.1.ty.size_of()) {
            Some(n) => n,
            None => {
                proof {
                    let k = fields@.len() - 1;
                    assert(reflects_member(fields@[k], s.members@[k], k as nat, base as int));
                    assert forall|j: int| 0 <= j < s.members@.len() implies member_converts(
                        #[trigger] s.members@[j],
                        base as int,
                    ) by {}
                }
                return Err(ReflectError::OffsetOutOfRange { member: last.0.clone() });
            },
        }
    };
    Ok(DynLayout::new(layout_name, size, fields))
}

/// Whether a struct whose short name is `name` is reachable from `ty`, through
/// array elements and struct members.
pub open spec fn holds_named(ty: ShaderType, name: Seq<char>) -> bool
    decreases ty,
{
    match ty {
        ShaderType::Array { element } => holds_named(*element, name),
        ShaderType::Struct(s) => short_name(s) == name || exists|i: int|
            0 <= i < s.members@.len() && holds_named(#[trigger] s.members@[i].ty, name),
        _ => false,
    }
}

/// Position of the first member of `s` from whose type a struct named `name` is
/// reachable.
pub open spec fn first_holding(s: ShaderStruct, name: Seq<char>) -> int {
    choose|j: int|
        0 <= j < s.members@.len() && holds_named(#[trigger] s.members@[j].ty, name) && forall|k: int|
            0 <= k < j ==> !holds_named(#[trigger] s.members@[k].ty, name)
}

/// The struct named `name` that a search of `ty` finds: through array elements,
/// and in a struct through its members in order before the struct itself.
pub open spec fn found_in(ty: ShaderType, name: Seq<char>) -> Option<ShaderStruct>
    decreases ty,
{
    match ty {
        ShaderType::Array { element } => found_in(*element, name),
        ShaderType::Struct(s) => if exists|j: int|
            0 <= j < s.members@.len() && holds_named(#[trigger] s.members@[j].ty, name) {
            let j = first_holding(s, name);
            if 0 <= j < s.members@.len() {
                found_in(s.members@[j].ty, name)
            } else {
                None
            }
        } else if short_name(s) == name {
            Some(s)
        } else {
            None
        },
        _ => None,
    }
}

/// The first member from which the name is reachable is the one that
/// `first_holding` picks.
proof fn lemma_first_holding(s: ShaderStruct, name: Seq<char>, i: int)
    requires
        0 <= i < s.members@.len(),
        holds_named(s.members@[i].ty, name),
        forall|k: int| 0 <= k < i ==> !holds_named(#[trigger] s.members@[k].ty, name),
    ensures
        first_holding(s, name) == i,
{
    let j = first_holding(s, name);
    assert(0 <= i < s.members@.len() && holds_named(s.members@[i].ty, name) && forall|k: int|
        0 <= k < i ==> !holds_named(#[trigger] s.members@[k].ty, name));
    if j < i {
        assert(!holds_named(s.members@[j].ty, name));
    }
    if i < j {
        assert(!holds_named(s.members@[i].ty, name));
    }
}

/// Finds a struct named `name` reachable from `ty`. Members are searched, in
/// order, before the struct that holds them, so a declaration wins over a
/// wrapper that carries its name as a suffix.
pub fn find_struct<'a>(ty: &'a ShaderType, name: &str) -> (r: Option<&'a ShaderStruct>)
    ensures
        r matches Some(s) ==> short_name(*s) == name@ && found_in(*ty, name@) == Some(*s),
        r is Some <==> holds_named(*ty, name@),
        r is None ==> found_in(*ty, name@) is None,
    decreases ty,
{
    match ty {
        ShaderType::Array { element } => find_struct(element, name),
        ShaderType::Struct(s) => {
            let mut i: usize = 0;
            while i < s.members.len()
                invariant
                    *ty == ShaderType::Struct(*s),
                    i <= s.members@.len(),
                    forall|j: int| 0 <= j < i ==> !holds_named(#[trigger] s.members@[j].ty, name@),
                decreases s.members@.len() - i,
            {
                proof {
                    let ghost m = s.members@;
                    assert(decreases_to!(*ty => (*ty)->Struct_0));
                    assert(decreases_to!(*s => s.members));
                    assert(decreases_to!(s.members => s.members@));
                    assert(decreases_to!(m => m[i as int]));
                    assert(decreases_to!(m[i as int] => m[i as int].ty));
                }
                match find_struct(&s.members[i].ty, name) {
                    Some(found) => {
                        assert(holds_named(s.members@[i as int].ty, name@));
                        proof {
                            lemma_first_holding(*s, name@, i as int);
                        }
                        return Some(found);
                    },
                    None => {},
                }
                i += 1;
            }
            let short = short_name_of(s);
            let target = String::from_str(name);
            if short == target {
                Some(s)
            } else {
                None
            }
        },
        _ => None,
    }
}

/// Position of the first resource from which a struct named `name` is reachable.
pub open spec fn first_resource(resources: Seq<ShaderType>, name: Seq<char>) -> int {
    choose|j: int|
        0 <= j < resources.len() && holds_named(#[trigger] resources[j], name) && forall|k: int|
            0 <= k < j ==> !holds_named(#[trigger] resources[k], name)
}

/// The struct named `name` that a search of the resources finds: the one found in
/// the first resource from which such a struct is reachable.
pub open spec fn resource_struct(resources: Seq<ShaderType>, name: Seq<char>) -> Option<ShaderStruct> {
    if exists|j: int| 0 <= j < resources.len() && holds_named(#[trigger] resources[j], name) {
        found_in(resources[first_resource(resources, name)], name)
    } else {
        None
    }
}

proof fn lemma_first_resource(resources: Seq<ShaderType>, name: Seq<char>, i: int)
    requires
        0 <= i < resources.len(),
        holds_named(resources[i], name),
        forall|k: int| 0 <= k < i ==> !holds_named(#[trigger] resources[k], name),
    ensures
        first_resource(resources, name) == i,
{
    let j = first_resource(resources, name);
    assert(0 <= i < resources.len() && holds_named(resources[i], name) && forall|k: int|
        0 <= k < i ==> !holds_named(#[trigger] resources[k], name));
    if j < i {
        assert(!holds_named(resources[j], name));
    }
    if i < j {
        assert(!holds_named(resources[i], name));
    }
}

/// The layout of the struct named `name` in a shader module, given the types of
/// the module's resource variables: the first of them from which such a struct
/// is reachable is searched as `find_struct` does, and the struct's layout is
/// built at offset zero under the name `name`.
pub fn layout_from_resources(resources: &Vec<ShaderType>, name: &str) -> (r: Result<DynLayout, ReflectError>)
    ensures
        match resource_struct(resources@, name@) {
            None => r matches Err(ReflectError::StructNotFound),
            Some(s) => {
                &&& !(r matches Err(ReflectError::StructNotFound))
                &&& r is Ok <==> converts(s, 0)
                &&& r matches Err(e) ==> error_for(e, s, 0)
                &&& r matches Ok(l) ==> l.wf() && l.name@ == name@ && l.describes(s, 0)
            },
        },
{
    let mut i: usize = 0;
    while i < resources.len()
        invariant
            i <= resources@.len(),
            forall|j: int| 0 <= j < i ==> !holds_named(#[trigger] resources@[j], name@),
        decreases resources@.len() - i,
    {
        match find_struct(&resources[i], name) {
            Some(s) => {
                proof {
                    lemma_first_resource(resources@, name@, i as int);
                }
                let r = struct_layout(s, name, 0);
                return r;
            },
            None => {},
        }
        i += 1;
    }
    Err(ReflectError::StructNotFound)
}

} // verus!
