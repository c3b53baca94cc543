use std::sync::Arc;

use vstd::prelude::*;

use crate::dyn_layout::DynLayout;

verus! {

/// The closed catalog of element kinds a field can have.
///
/// Every kind but `Struct` has a fixed byte size; a `Struct` is as large as its
/// nested layout says.
#[derive(Clone, Debug, PartialEq)]
pub enum BaseType {
    Void,
    U8,
    U16,
    U32,
    U64,
    U128,
    I8,
    I16,
    I32,
    I64,
    I128,
    F32,
    F64,
    Bool,
    UVec2,
    UVec3,
    UVec4,
    IVec2,
    IVec3,
    IVec4,
    Vec2,
    Vec3,
    Vec4,
    Mat2,
    Mat3,
    Mat4,
    Quat,
    DVec2,
    DVec3,
    DVec4,
    DMat2,
    DMat3,
    DMat4,
    DAffine2,
    DAffine3,
    Struct(Arc<DynLayout>),
}

impl BaseType {
    /// Byte size of a value of this kind.
    pub open spec fn spec_size(&self) -> nat {
        match self {
            BaseType::Void => 0,
            BaseType::U8 => 1,
            BaseType::U16 => 2,
            BaseType::U32 => 4,
            BaseType::U64 => 8,
            BaseType::U128 => 16,
            BaseType::I8 => 1,
            BaseType::I16 => 2,
            BaseType::I32 => 4,
            BaseType::I64 => 8,
            BaseType::I128 => 16,
            BaseType::F32 => 4,
            BaseType::F64 => 8,
            BaseType::Bool => 1,
            BaseType::UVec2 => 8,
            BaseType::UVec3 => 12,
            BaseType::UVec4 => 16,
            BaseType::IVec2 => 8,
            BaseType::IVec3 => 12,
            BaseType::IVec4 => 16,
            BaseType::Vec2 => 8,
            BaseType::Vec3 => 12,
            BaseType::Vec4 => 16,
            BaseType::Mat2 => 16,
            BaseType::Mat3 => 36,
            BaseType::Mat4 => 64,
            BaseType::Quat => 16,
            BaseType::DVec2 => 16,
            BaseType::DVec3 => 24,
            BaseType::DVec4 => 32,
            BaseType::DMat2 => 32,
            BaseType::DMat3 => 72,
            BaseType::DMat4 => 128,
            BaseType::DAffine2 => 48,
            BaseType::DAffine3 => 96,
            BaseType::Struct(l) => l.size as nat,
        }
    }

    /// The size of every kind but `Struct`, which has no fixed size.
    pub open spec fn fixed_size(&self) -> Option<nat> {
        match self {
            BaseType::Struct(_) => None,
            _ => Some(self.spec_size()),
        }
    }

    /// Whether the kind is one of the language's own scalar types.
    pub open spec fn spec_rust_base_type(&self) -> bool {
        match self {
            BaseType::U8 => true,
            BaseType::U16 => true,
            BaseType::U32 => true,
            BaseType::U64 => true,
            BaseType::U128 => true,
            BaseType::I8 => true,
            BaseType::I16 => true,
            BaseType::I32 => true,
            BaseType::I64 => true,
            BaseType::I128 => true,
            BaseType::F32 => true,
            BaseType::F64 => true,
            BaseType::Bool => true,
            _ => false,
        }
    }

    pub open spec fn is_struct(&self) -> bool {
        self is Struct
    }

    pub fn size_of(&self) -> (r: usize)
        ensures
            r == self.spec_size(),
    {
        match self {
            BaseType::Void => 0,
            BaseType::U8 => 1,
            BaseType::U16 => 2,
            BaseType::U32 => 4,
            BaseType::U64 => 8,
            BaseType::U128 => 16,
            BaseType::I8 => 1,
            BaseType::I16 => 2,
            BaseType::I32 => 4,
            BaseType::I64 => 8,
            BaseType::I128 => 16,
            BaseType::F32 => 4,
            BaseType::F64 => 8,
            BaseType::Bool => 1,
            BaseType::UVec2 => 8,
            BaseType::UVec3 => 12,
            BaseType::UVec4 => 16,
            BaseType::IVec2 => 8,
            BaseType::IVec3 => 12,
            BaseType::IVec4 => 16,
            BaseType::Vec2 => 8,
            BaseType::Vec3 => 12,
            BaseType::Vec4 => 16,
            BaseType::Mat2 => 16,
            BaseType::Mat3 => 36,
            BaseType::Mat4 => 64,
            BaseType::Quat => 16,
            BaseType::DVec2 => 16,
            BaseType::DVec3 => 24,
            BaseType::DVec4 => 32,
            BaseType::DMat2 => 32,
            BaseType::DMat3 => 72,
            BaseType::DMat4 => 128,
            BaseType::DAffine2 => 48,
            BaseType::DAffine3 => 96,
            BaseType::Struct(l) => l.size,
        }
    }

    pub fn const_size_of(&self) -> (r: Option<usize>)
        ensures
            r matches Some(n) ==> self.fixed_size() == Some(n as nat),
            r is None <==> self.fixed_size() is None,
    {
        match self {
            BaseType::Struct(_) => None,
            _ => Some(self.size_of()),
        }
    }

    pub fn rust_base_type(&self) -> (r: bool)
        ensures
            r == self.spec_rust_base_type(),
    {
        match self {
            BaseType::U8 => true,
            BaseType::U16 => true,
            BaseType::U32 => true,
            BaseType::U64 => true,
            BaseType::U128 => true,
            BaseType::I8 => true,
            BaseType::I16 => true,
            BaseType::I32 => true,
            BaseType::I64 => true,
            BaseType::I128 => true,
            BaseType::F32 => true,
            BaseType::F64 => true,
            BaseType::Bool => true,
            _ => false,
        }
    }
}

/// A type whose values have a fixed byte size.
pub trait BaseTypeInfo {
    spec fn spec_size() -> nat;

    fn size() -> (r: usize)
        ensures
            r == Self::spec_size(),
    ;
}

/// A type that has a kind in the catalog.
pub trait IntoBaseType {
    spec fn spec_base_type() -> BaseType;

    fn into_base_type() -> (r: BaseType)
        ensures
            r == Self::spec_base_type(),
    ;
}

impl BaseTypeInfo for u8 {
    open spec fn spec_size() -> nat {
        1
    }

    fn size() -> (r: usize) {
        1
    }
}

impl IntoBaseType for u8 {
    open spec fn spec_base_type() -> BaseType {
        BaseType::U8
    }

    fn into_base_type() -> (r: BaseType) {
        BaseType::U8
    }
}

impl BaseTypeInfo for u16 {
    open spec fn spec_size() -> nat {
        2
    }

    fn size() -> (r: usize) {
        2
    }
}

impl IntoBaseType for u16 {
    open spec fn spec_base_type() -> BaseType {
        BaseType::U16
    }

    fn into_base_type() -> (r: BaseType) {
        BaseType::U16
    }
}

impl BaseTypeInfo for u32 {
    open spec fn spec_size() -> nat {
        4
    }

    fn size() -> (r: usize) {
        4
    }
}

impl IntoBaseType for u32 {
    open spec fn spec_base_type() -> BaseType {
        BaseType::U32
    }

    fn into_base_type() -> (r: BaseType) {
        BaseType::U32
    }
}

impl BaseTypeInfo for u64 {
    open spec fn spec_size() -> nat {
        8
    }

    fn size() -> (r: usize) {
        8
    }
}

impl IntoBaseType for u64 {
    open spec fn spec_base_type() -> BaseType {
        BaseType::U64
    }

    fn into_base_type() -> (r: BaseType) {
        BaseType::U64
    }
}

impl BaseTypeInfo for u128 {
    open spec fn spec_size() -> nat {
        16
    }

    fn size() -> (r: usize) {
        16
    }
}

impl IntoBaseType for u128 {
    open spec fn spec_base_type() -> BaseType {
        BaseType::U128
    }

    fn into_base_type() -> (r: BaseType) {
        BaseType::U128
    }
}

impl BaseTypeInfo for i8 {
    open spec fn spec_size() -> nat {
        1
    }

    fn size() -> (r: usize) {
        1
    }
}

impl IntoBaseType for i8 {
    open spec fn spec_base_type() -> BaseType {
        BaseType::I8
    }

    fn into_base_type() -> (r: BaseType) {
        BaseType::I8
    }
}

impl BaseTypeInfo for i16 {
    open spec fn spec_size() -> nat {
        2
    }

    fn size() -> (r: usize) {
        2
    }
}

impl IntoBaseType for i16 {
    open spec fn spec_base_type() -> BaseType {
        BaseType::I16
    }

    fn into_base_type() -> (r: BaseType) {
        BaseType::I16
    }
}

impl BaseTypeInfo for i32 {
    open spec fn spec_size() -> nat {
        4
    }

    fn size() -> (r: usize) {
        4
    }
}

impl IntoBaseType for i32 {
    open spec fn spec_base_type() -> BaseType {
        BaseType::I32
    }

    fn into_base_type() -> (r: BaseType) {
        BaseType::I32
    }
}

impl BaseTypeInfo for i64 {
    open spec fn spec_size() -> nat {
        8
    }

    fn size() -> (r: usize) {
        8
    }
}

impl IntoBaseType for i64 {
    open spec fn spec_base_type() -> BaseType {
        BaseType::I64
    }

    fn into_base_type() -> (r: BaseType) {
        BaseType::I64
    }
}

impl BaseTypeInfo for i128 {
    open spec fn spec_size() -> nat {
        16
    }

    fn size() -> (r: usize) {
        16
    }
}

impl IntoBaseType for i128 {
    open spec fn spec_base_type() -> BaseType {
        BaseType::I128
    }

    fn into_base_type() -> (r: BaseType) {
        BaseType::I128
    }
}

impl BaseTypeInfo for bool {
    open spec fn spec_size() -> nat {
        1
    }

    fn size() -> (r: usize) {
        1
    }
}

impl IntoBaseType for bool {
    open spec fn spec_base_type() -> BaseType {
        BaseType::Bool
    }

    fn into_base_type() -> (r: BaseType) {
        BaseType::Bool
    }
}

/// glam's `UVec2`; carried opaquely, described by its kind and size.
#[verifier::external_type_specification]
#[verifier::external_body]
pub struct ExUVec2(glam::UVec2);

impl BaseTypeInfo for glam::UVec2 {
    open spec fn spec_size() -> nat {
        vstd::layout::size_of::<glam::UVec2>()
    }

    fn size() -> (r: usize) {
        core::mem::size_of::<glam::UVec2>()
    }
}

impl IntoBaseType for glam::UVec2 {
    open spec fn spec_base_type() -> BaseType {
        BaseType::UVec2
    }

    fn into_base_type() -> (r: BaseType) {
        BaseType::UVec2
    }
}

/// glam's `UVec3`; carried opaquely, described by its kind and size.
#[verifier::external_type_specification]
#[verifier::external_body]
pub struct ExUVec3(glam::UVec3);

impl BaseTypeInfo for glam::UVec3 {
    open spec fn spec_size() -> nat {
        vstd::layout::size_of::<glam::UVec3>()
    }

    fn size() -> (r: usize) {
        core::mem::size_of::<glam::UVec3>()
    }
}

impl IntoBaseType for glam::UVec3 {
    open spec fn spec_base_type() -> BaseType {
        BaseType::UVec3
    }

    fn into_base_type() -> (r: BaseType) {
        BaseType::UVec3
    }
}

/// glam's `UVec4`; carried opaquely, described by its kind and size.
#[verifier::external_type_specification]
#[verifier::external_body]
pub struct ExUVec4(glam::UVec4);

impl BaseTypeInfo for glam::UVec4 {
    open spec fn spec_size() -> nat {
        vstd::layout::size_of::<glam::UVec4>()
    }

    fn size() -> (r: usize) {
        core::mem::size_of::<glam::UVec4>()
    }
}

impl IntoBaseType for glam::UVec4 {
    open spec fn spec_base_type() -> BaseType {
        BaseType::UVec4
    }

    fn into_base_type() -> (r: BaseType) {
        BaseType::UVec4
    }
}

/// glam's `IVec2`; carried opaquely, described by its kind and size.
#[verifier::external_type_specification]
#[verifier::external_body]
pub struct ExIVec2(glam::IVec2);

impl BaseTypeInfo for glam::IVec2 {
    open spec fn spec_size() -> nat {
        vstd::layout::size_of::<glam::IVec2>()
    }

    fn size() -> (r: usize) {
        core::mem::size_of::<glam::IVec2>()
    }
}

impl IntoBaseType for glam::IVec2 {
    open spec fn spec_base_type() -> BaseType {
        BaseType::IVec2
    }

    fn into_base_type() -> (r: BaseType) {
        BaseType::IVec2
    }
}

/// glam's `IVec3`; carried opaquely, described by its kind and size.
#[verifier::external_type_specification]
#[verifier::external_body]
pub struct ExIVec3(glam::IVec3);

impl BaseTypeInfo for glam::IVec3 {
    open spec fn spec_size() -> nat {
        vstd::layout::size_of::<glam::IVec3>()
    }

    fn size() -> (r: usize) {
        core::mem::size_of::<glam::IVec3>()
    }
}

impl IntoBaseType for glam::IVec3 {
    open spec fn spec_base_type() -> BaseType {
        BaseType::IVec3
    }

    fn into_base_type() -> (r: BaseType) {
        BaseType::IVec3
    }
}

/// glam's `IVec4`; carried opaquely, described by its kind and size.
#[verifier::external_type_specification]
#[verifier::external_body]
pub struct ExIVec4(glam::IVec4);

impl BaseTypeInfo for glam::IVec4 {
    open spec fn spec_size() -> nat {
        vstd::layout::size_of::<glam::IVec4>()
    }

    fn size() -> (r: usize) {
        core::mem::size_of::<glam::IVec4>()
    }
}

impl IntoBaseType for glam::IVec4 {
    open spec fn spec_base_type() -> BaseType {
        BaseType::IVec4
    }

    fn into_base_type() -> (r: BaseType) {
        BaseType::IVec4
    }
}

/// glam's `Vec2`; carried opaquely, described by its kind and size.
#[verifier::external_type_specification]
#[verifier::external_body]
pub struct ExVec2(glam::Vec2);

impl BaseTypeInfo for glam::Vec2 {
    open spec fn spec_size() -> nat {
        vstd::layout::size_of::<glam::Vec2>()
    }

    fn size() -> (r: usize) {
        core::mem::size_of::<glam::Vec2>()
    }
}

impl IntoBaseType for glam::Vec2 {
    open spec fn spec_base_type() -> BaseType {
        BaseType::Vec2
    }

    fn into_base_type() -> (r: BaseType) {
        BaseType::Vec2
    }
}

/// glam's `Vec3`; carried opaquely, described by its kind and size.
#[verifier::external_type_specification]
#[verifier::external_body]
pub struct ExVec3(glam::Vec3);

impl BaseTypeInfo for glam::Vec3 {
    open spec fn spec_size() -> nat {
        vstd::layout::size_of::<glam::Vec3>()
    }

    fn size() -> (r: usize) {
        core::mem::size_of::<glam::Vec3>()
    }
}

impl IntoBaseType for glam::Vec3 {
    open spec fn spec_base_type() -> BaseType {
        BaseType::Vec3
    }

    fn into_base_type() -> (r: BaseType) {
        BaseType::Vec3
    }
}

/// glam's `Vec4`; carried opaquely, described by its kind and size.
#[verifier::external_type_specification]
#[verifier::external_body]
pub struct ExVec4(glam::Vec4);

impl BaseTypeInfo for glam::Vec4 {
    open spec fn spec_size() -> nat {
        vstd::layout::size_of::<glam::Vec4>()
    }

    fn size() -> (r: usize) {
        core::mem::size_of::<glam::Vec4>()
    }
}

impl IntoBaseType for glam::Vec4 {
    open spec fn spec_base_type() -> BaseType {
        BaseType::Vec4
    }

    fn into_base_type() -> (r: BaseType) {
        BaseType::Vec4
    }
}

/// glam's `Mat2`; carried opaquely, described by its kind and size.
#[verifier::external_type_specification]
#[verifier::external_body]
pub struct ExMat2(glam::Mat2);

impl BaseTypeInfo for glam::Mat2 {
    open spec fn spec_size() -> nat {
        vstd::layout::size_of::<glam::Mat2>()
    }

    fn size() -> (r: usize) {
        core::mem::size_of::<glam::Mat2>()
    }
}

impl IntoBaseType for glam::Mat2 {
    open spec fn spec_base_type() -> BaseType {
        BaseType::Mat2
    }

    fn into_base_type() -> (r: BaseType) {
        BaseType::Mat2
    }
}

/// glam's `Mat3`; carried opaquely, described by its kind and size.
#[verifier::external_type_specification]
#[verifier::external_body]
pub struct ExMat3(glam::Mat3);

impl BaseTypeInfo for glam::Mat3 {
    open spec fn spec_size() -> nat {
        vstd::layout::size_of::<glam::Mat3>()
    }

    fn size() -> (r: usize) {
        core::mem::size_of::<glam::Mat3>()
    }
}

impl IntoBaseType for glam::Mat3 {
    open spec fn spec_base_type() -> BaseType {
        BaseType::Mat3
    }

    fn into_base_type() -> (r: BaseType) {
        BaseType::Mat3
    }
}

/// glam's `Mat4`; carried opaquely, described by its kind and size.
#[verifier::external_type_specification]
#[verifier::external_body]
pub struct ExMat4(glam::Mat4);

impl BaseTypeInfo for glam::Mat4 {
    open spec fn spec_size() -> nat {
        vstd::layout::size_of::<glam::Mat4>()
    }

    fn size() -> (r: usize) {
        core::mem::size_of::<glam::Mat4>()
    }
}

impl IntoBaseType for glam::Mat4 {
    open spec fn spec_base_type() -> BaseType {
        BaseType::Mat4
    }

    fn into_base_type() -> (r: BaseType) {
        BaseType::Mat4
    }
}

/// glam's `Quat`; carried opaquely, described by its kind and size.
#[verifier::external_type_specification]
#[verifier::external_body]
pub struct ExQuat(glam::Quat);

impl BaseTypeInfo for glam::Quat {
    open spec fn spec_size() -> nat {
        vstd::layout::size_of::<glam::Quat>()
    }

    fn size() -> (r: usize) {
        core::mem::size_of::<glam::Quat>()
    }
}

impl IntoBaseType for glam::Quat {
    open spec fn spec_base_type() -> BaseType {
        BaseType::Quat
    }

    fn into_base_type() -> (r: BaseType) {
        BaseType::Quat
    }
}

/// glam's `DVec2`; carried opaquely, described by its kind and size.
#[verifier::external_type_specification]
#[verifier::external_body]
pub struct ExDVec2(glam::DVec2);

impl BaseTypeInfo for glam::DVec2 {
    open spec fn spec_size() -> nat {
        vstd::layout::size_of::<glam::DVec2>()
    }

    fn size() -> (r: usize) {
        core::mem::size_of::<glam::DVec2>()
    }
}

impl IntoBaseType for glam::DVec2 {
    open spec fn spec_base_type() -> BaseType {
        BaseType::DVec2
    }

    fn into_base_type() -> (r: BaseType) {
        BaseType::DVec2
    }
}

/// glam's `DVec3`; carried opaquely, described by its kind and size.
#[verifier::external_type_specification]
#[verifier::external_body]
pub struct ExDVec3(glam::DVec3);

impl BaseTypeInfo for glam::DVec3 {
    open spec fn spec_size() -> nat {
        vstd::layout::size_of::<glam::DVec3>()
    }

    fn size() -> (r: usize) {
        core::mem::size_of::<glam::DVec3>()
    }
}

impl IntoBaseType for glam::DVec3 {
    open spec fn spec_base_type() -> BaseType {
        BaseType::DVec3
    }

    fn into_base_type() -> (r: BaseType) {
        BaseType::DVec3
    }
}

/// glam's `DVec4`; carried opaquely, described by its kind and size.
#[verifier::external_type_specification]
#[verifier::external_body]
pub struct ExDVec4(glam::DVec4);

impl BaseTypeInfo for glam::DVec4 {
    open spec fn spec_size() -> nat {
        vstd::layout::size_of::<glam::DVec4>()
    }

    fn size() -> (r: usize) {
        core::mem::size_of::<glam::DVec4>()
    }
}

impl IntoBaseType for glam::DVec4 {
    open spec fn spec_base_type() -> BaseType {
        BaseType::DVec4
    }

    fn into_base_type() -> (r: BaseType) {
        BaseType::DVec4
    }
}

/// glam's `DMat2`; carried opaquely, described by its kind and size.
#[verifier::external_type_specification]
#[verifier::external_body]
pub struct ExDMat2(glam::DMat2);

impl BaseTypeInfo for glam::DMat2 {
    open spec fn spec_size() -> nat {
        vstd::layout::size_of::<glam::DMat2>()
    }

    fn size() -> (r: usize) {
        core::mem::size_of::<glam::DMat2>()
    }
}

impl IntoBaseType for glam::DMat2 {
    open spec fn spec_base_type() -> BaseType {
        BaseType::DMat2
    }

    fn into_base_type() -> (r: BaseType) {
        BaseType::DMat2
    }
}

/// glam's `DMat3`; carried opaquely, described by its kind and size.
#[verifier::external_type_specification]
#[verifier::external_body]
pub struct ExDMat3(glam::DMat3);

impl BaseTypeInfo for glam::DMat3 {
    open spec fn spec_size() -> nat {
        vstd::layout::size_of::<glam::DMat3>()
    }

    fn size() -> (r: usize) {
        core::mem::size_of::<glam::DMat3>()
    }
}

impl IntoBaseType for glam::DMat3 {
    open spec fn spec_base_type() -> BaseType {
        BaseType::DMat3
    }

    fn into_base_type() -> (r: BaseType) {
        BaseType::DMat3
    }
}

/// glam's `DMat4`; carried opaquely, described by its kind and size.
#[verifier::external_type_specification]
#[verifier::external_body]
pub struct ExDMat4(glam::DMat4);

impl BaseTypeInfo for glam::DMat4 {
    open spec fn spec_size() -> nat {
        vstd::layout::size_of::<glam::DMat4>()
    }

    fn size() -> (r: usize) {
        core::mem::size_of::<glam::DMat4>()
    }
}

impl IntoBaseType for glam::DMat4 {
    open spec fn spec_base_type() -> BaseType {
        BaseType::DMat4
    }

    fn into_base_type() -> (r: BaseType) {
        BaseType::DMat4
    }
}

/// glam's `DAffine2`; carried opaquely, described by its kind and size.
#[verifier::external_type_specification]
#[verifier::external_body]
pub struct ExDAffine2(glam::DAffine2);

impl BaseTypeInfo for glam::DAffine2 {
    open spec fn spec_size() -> nat {
        vstd::layout::size_of::<glam::DAffine2>()
    }

    fn size() -> (r: usize) {
        core::mem::size_of::<glam::DAffine2>()
    }
}

impl IntoBaseType for glam::DAffine2 {
    open spec fn spec_base_type() -> BaseType {
        BaseType::DAffine2
    }

    fn into_base_type() -> (r: BaseType) {
        BaseType::DAffine2
    }
}

/// glam's `DAffine3`; carried opaquely, described by its kind and size.
#[verifier::external_type_specification]
#[verifier::external_body]
pub struct ExDAffine3(glam::DAffine3);

impl BaseTypeInfo for glam::DAffine3 {
    open spec fn spec_size() -> nat {
        vstd::layout::size_of::<glam::DAffine3>()
    }

    fn size() -> (r: usize) {
        core::mem::size_of::<glam::DAffine3>()
    }
}

impl IntoBaseType for glam::DAffine3 {
    open spec fn spec_base_type() -> BaseType {
        BaseType::DAffine3
    }

    fn into_base_type() -> (r: BaseType) {
        BaseType::DAffine3
    }
}

pub fn get_base_type<T: IntoBaseType>() -> (r: BaseType)
    ensures
        r == T::spec_base_type(),
{
    T::into_base_type()
}

} // verus!
