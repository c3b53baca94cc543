use std::sync::Arc;

use dyn_pod_struct::base_type::BaseType;
use dyn_pod_struct::dyn_layout::{DynField, DynLayout};
use dyn_pod_struct::spirv::{
    find_struct, last_segment_of, layout_from_resources, spirq_ty_to_dyn, struct_layout, ReflectError,
    ShaderMember, ShaderScalar, ShaderStruct, ShaderType,
};

const F32: ShaderScalar = ShaderScalar::Float { bits: 32 };
const U32: ShaderScalar = ShaderScalar::Integer { bits: 32, is_signed: false };

fn member(name: &str, offset: usize, ty: ShaderType) -> ShaderMember {
    ShaderMember { name: Some(name.to_string()), offset: Some(offset), ty }
}

fn vec3() -> ShaderType {
    ShaderType::Vector { scalar: F32, count: 3 }
}

fn mat4() -> ShaderType {
    ShaderType::Matrix { scalar: F32, columns: 4, rows: 4 }
}

/// `InstanceData` as a shader compiler lays it out, inside the wrapper struct
/// that holds the storage buffer's runtime array.
fn shader_resources() -> Vec<ShaderType> {
    let nested = ShaderStruct {
        name: Some("NestedStruct".to_string()),
        members: vec![
            member("a", 0, vec3()),
            member("b", 12, ShaderType::Scalar(F32)),
            member("c", 16, vec3()),
            member("d", 28, ShaderType::Scalar(U32)),
        ],
    };
    let instance = ShaderStruct {
        name: Some("InstanceData".to_string()),
        members: vec![
            member("local_to_world", 0, mat4()),
            member("world_to_local", 64, mat4()),
            member("previous_local_to_world", 128, mat4()),
            member("aabb_min", 192, vec3()),
            member("material_index", 204, ShaderType::Scalar(U32)),
            member("aabb_max", 208, vec3()),
            member("bindpose_start", 220, ShaderType::Scalar(U32)),
            member("nested", 224, ShaderType::Struct(nested)),
            member("index_count", 256, ShaderType::Scalar(U32)),
            member("first_index", 260, ShaderType::Scalar(U32)),
            member("vertex_count", 264, ShaderType::Scalar(U32)),
            member("first_vertex", 268, ShaderType::Scalar(U32)),
        ],
    };
    let wrapper = ShaderStruct {
        name: Some("type.RWStructuredBuffer.InstanceData".to_string()),
        members: vec![member(
            "_m0",
            0,
            ShaderType::Array { element: Box::new(ShaderType::Struct(instance)) },
        )],
    };
    vec![ShaderType::Opaque, ShaderType::Struct(wrapper)]
}

fn field(name: &str, offset: u32, ty: BaseType) -> (String, DynField) {
    (name.to_string(), DynField { offset, ty })
}

/// The host `InstanceData` layout, with members aligned as the host compiler does.
fn host_layout() -> DynLayout {
    let nested = DynLayout::new(
        "NestedStruct",
        32,
        vec![
            field("a", 224, BaseType::Vec3),
            field("b", 236, BaseType::F32),
            field("c", 240, BaseType::Vec3),
            field("d", 252, BaseType::U32),
        ],
    );
    DynLayout::new(
        "InstanceData",
        272,
        vec![
            field("local_to_world", 0, BaseType::Mat4),
            field("world_to_local", 64, BaseType::Mat4),
            field("previous_local_to_world", 128, BaseType::Mat4),
            field("aabb_min", 192, BaseType::Vec3),
            field("material_index", 204, BaseType::U32),
            field("aabb_max", 208, BaseType::Vec3),
            field("bindpose_start", 220, BaseType::U32),
            field("nested", 224, BaseType::Struct(Arc::new(nested))),
            field("index_count", 256, BaseType::U32),
            field("first_index", 260, BaseType::U32),
            field("vertex_count", 264, BaseType::U32),
            field("first_vertex", 268, BaseType::U32),
        ],
    )
}

#[test]
fn shader_layout_equals_host_layout() {
    let shader = layout_from_resources(&shader_resources(), "InstanceData").unwrap();
    let host = host_layout();
    assert_eq!(shader.name, host.name);
    assert_eq!(shader.size, host.size);
    assert_eq!(shader.fields, host.fields);
    assert_eq!(shader, host);
    assert_eq!(shader.get_path(&["nested", "c"]).unwrap().offset, 240);
}

#[test]
fn missing_struct_is_reported() {
    let r = layout_from_resources(&shader_resources(), "Missing");
    assert_eq!(r, Err(ReflectError::StructNotFound));
    assert_eq!(layout_from_resources(&vec![], "InstanceData"), Err(ReflectError::StructNotFound));
}

#[test]
fn wrapper_name_suffix_finds_inner_declaration() {
    let resources = shader_resources();
    let found = find_struct(&resources[1], "InstanceData").unwrap();
    assert_eq!(found.members.len(), 12);
    assert!(find_struct(&resources[0], "InstanceData").is_none());
    assert_eq!(find_struct(&resources[1], "NestedStruct").unwrap().members.len(), 4);
}

#[test]
fn member_errors_are_reported() {
    let no_offset = ShaderStruct {
        name: Some("S".to_string()),
        members: vec![ShaderMember { name: Some("x".to_string()), offset: None, ty: ShaderType::Scalar(U32) }],
    };
    assert_eq!(
        struct_layout(&no_offset, "S", 0),
        Err(ReflectError::MissingOffset { member: "x".to_string() })
    );
    let image = ShaderStruct { name: Some("S".to_string()), members: vec![member("img", 0, ShaderType::Opaque)] };
    assert_eq!(
        struct_layout(&image, "S", 0),
        Err(ReflectError::UnsupportedType { member: "img".to_string() })
    );
    let far = ShaderStruct {
        name: Some("S".to_string()),
        members: vec![member("x", u32::MAX as usize, ShaderType::Scalar(U32))],
    };
    assert_eq!(struct_layout(&far, "S", 1), Err(ReflectError::OffsetOutOfRange { member: "x".to_string() }));
}

#[test]
fn unnamed_members_are_numbered() {
    let s = ShaderStruct {
        name: None,
        members: vec![
            member("first", 0, ShaderType::Scalar(U32)),
            ShaderMember { name: None, offset: Some(4), ty: ShaderType::Scalar(F32) },
            ShaderMember { name: None, offset: Some(16), ty: ShaderType::Vector { scalar: F32, count: 4 } },
        ],
    };
    let l = struct_layout(&s, "Anon", 0).unwrap();
    assert_eq!(l.fields[1].0, "param_1");
    assert_eq!(l.fields[2].0, "param_2");
    assert_eq!(l.size, 32);
    assert_eq!(l.get_path(&["param_2"]).unwrap().ty, BaseType::Vec4);
}

#[test]
fn empty_struct_has_size_zero() {
    let s = ShaderStruct { name: Some("E".to_string()), members: vec![] };
    let l = struct_layout(&s, "E", 0).unwrap();
    assert_eq!(l.size, 0);
    assert!(l.fields.is_empty());
}

#[test]
fn shader_types_map_to_catalog() {
    let int = |bits, is_signed| ShaderType::Scalar(ShaderScalar::Integer { bits, is_signed });
    assert_eq!(spirq_ty_to_dyn(&int(8, false)), Some(BaseType::U8));
    assert_eq!(spirq_ty_to_dyn(&int(16, true)), Some(BaseType::I16));
    assert_eq!(spirq_ty_to_dyn(&int(64, false)), Some(BaseType::U64));
    assert_eq!(spirq_ty_to_dyn(&int(12, false)), None);
    assert_eq!(spirq_ty_to_dyn(&ShaderType::Scalar(ShaderScalar::Float { bits: 64 })), Some(BaseType::F64));
    assert_eq!(spirq_ty_to_dyn(&ShaderType::Scalar(ShaderScalar::Boolean)), Some(BaseType::Bool));
    assert_eq!(spirq_ty_to_dyn(&ShaderType::Scalar(ShaderScalar::Void)), Some(BaseType::Void));
    assert_eq!(
        spirq_ty_to_dyn(&ShaderType::Vector { scalar: ShaderScalar::Integer { bits: 32, is_signed: true }, count: 3 }),
        Some(BaseType::IVec3)
    );
    assert_eq!(
        spirq_ty_to_dyn(&ShaderType::Vector { scalar: ShaderScalar::Float { bits: 64 }, count: 2 }),
        Some(BaseType::DVec2)
    );
    assert_eq!(spirq_ty_to_dyn(&ShaderType::Vector { scalar: F32, count: 5 }), None);
    assert_eq!(spirq_ty_to_dyn(&ShaderType::Matrix { scalar: F32, columns: 3, rows: 3 }), Some(BaseType::Mat3));
    assert_eq!(spirq_ty_to_dyn(&ShaderType::Matrix { scalar: F32, columns: 4, rows: 3 }), None);
    assert_eq!(spirq_ty_to_dyn(&ShaderType::Array { element: Box::new(ShaderType::Scalar(U32)) }), None);
}

#[test]
fn last_segment_of_dotted_names() {
    assert_eq!(last_segment_of("type.RWStructuredBuffer.InstanceData"), "InstanceData");
    assert_eq!(last_segment_of("Plain"), "Plain");
    assert_eq!(last_segment_of("ends."), "");
    assert_eq!(last_segment_of(""), "");
}

#[test]
fn first_resource_holding_the_name_is_used() {
    let first = ShaderStruct {
        name: Some("Block.Target".to_string()),
        members: vec![member("x", 0, ShaderType::Scalar(U32))],
    };
    let second = ShaderStruct {
        name: Some("Target".to_string()),
        members: vec![member("y", 0, ShaderType::Scalar(F32)), member("z", 4, ShaderType::Scalar(F32))],
    };
    let resources = vec![ShaderType::Struct(first), ShaderType::Struct(second)];
    let l = layout_from_resources(&resources, "Target").unwrap();
    assert_eq!(l.name, "Target");
    assert_eq!(l.fields.len(), 1);
    assert_eq!(l.fields[0].0, "x");
    assert_eq!(l.size, 4);
}

#[test]
fn member_declaration_wins_over_wrapper() {
    let inner = ShaderStruct { name: Some("T".to_string()), members: vec![member("a", 0, ShaderType::Scalar(U32))] };
    let outer = ShaderStruct {
        name: Some("buffer.T".to_string()),
        members: vec![member("items", 0, ShaderType::Array { element: Box::new(ShaderType::Struct(inner)) })],
    };
    let l = layout_from_resources(&vec![ShaderType::Struct(outer)], "T").unwrap();
    assert_eq!(l.fields[0].0, "a");
}

#[test]
fn first_failing_member_names_the_error() {
    let inner = ShaderStruct {
        name: Some("Inner".to_string()),
        members: vec![member("ok", 0, ShaderType::Scalar(U32)), member("bad", 4, ShaderType::Opaque)],
    };
    let s = ShaderStruct {
        name: Some("S".to_string()),
        members: vec![
            member("a", 0, ShaderType::Scalar(U32)),
            member("inner", 16, ShaderType::Struct(inner)),
            ShaderMember { name: Some("late".to_string()), offset: None, ty: ShaderType::Scalar(U32) },
        ],
    };
    assert_eq!(struct_layout(&s, "S", 0), Err(ReflectError::UnsupportedType { member: "bad".to_string() }));
    let unnamed = ShaderStruct {
        name: None,
        members: vec![
            member("a", 0, ShaderType::Scalar(U32)),
            ShaderMember { name: None, offset: None, ty: ShaderType::Scalar(U32) },
        ],
    };
    assert_eq!(struct_layout(&unnamed, "U", 0), Err(ReflectError::MissingOffset { member: "param_1".to_string() }));
}
