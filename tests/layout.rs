use std::mem::size_of;
use std::sync::Arc;

use dyn_pod_struct::base_type::{get_base_type, BaseType, BaseTypeInfo, IntoBaseType};
use dyn_pod_struct::dyn_layout::{DynField, DynLayout};
use dyn_pod_struct::dyn_struct::DynStruct;
use glam::{ivec4, uvec4, vec4, IVec4, UVec4, Vec4};

fn field(name: &str, offset: u32, ty: BaseType) -> (String, DynField) {
    (name.to_string(), DynField { offset, ty })
}

/// `NestedStruct { a: u32, b: f32, c: u32, d: u32 }` placed at `base`.
fn nested_struct(base: u32) -> BaseType {
    BaseType::Struct(Arc::new(DynLayout::new(
        "NestedStruct",
        16,
        vec![
            field("a", base, BaseType::U32),
            field("b", base + 4, BaseType::F32),
            field("c", base + 8, BaseType::U32),
            field("d", base + 12, BaseType::U32),
        ],
    )))
}

/// `MyStruct { nested: NestedStruct, b: f32, c: u32 }`.
fn my_struct_layout() -> Arc<DynLayout> {
    Arc::new(DynLayout::new(
        "MyStruct",
        24,
        vec![
            field("nested", 0, nested_struct(0)),
            field("b", 16, BaseType::F32),
            field("c", 20, BaseType::U32),
        ],
    ))
}

/// `MyStruct2 { p: Vec4, nested: NestedStruct, a1..a4: u32, u: UVec4, i: IVec4 }`.
fn my_struct2_layout() -> Arc<DynLayout> {
    Arc::new(DynLayout::new(
        "MyStruct2",
        80,
        vec![
            field("p", 0, BaseType::Vec4),
            field("nested", 16, nested_struct(16)),
            field("a1", 32, BaseType::U32),
            field("a2", 36, BaseType::U32),
            field("a3", 40, BaseType::U32),
            field("a4", 44, BaseType::U32),
            field("u", 48, BaseType::UVec4),
            field("i", 64, BaseType::IVec4),
        ],
    ))
}

fn nested_bytes(a: u32, b: f32, c: u32, d: u32) -> Vec<u8> {
    let mut v = Vec::new();
    v.extend_from_slice(&a.to_ne_bytes());
    v.extend_from_slice(&b.to_ne_bytes());
    v.extend_from_slice(&c.to_ne_bytes());
    v.extend_from_slice(&d.to_ne_bytes());
    v
}

fn read<T: bytemuck::Pod>(s: &DynStruct, path: &[&str]) -> T {
    bytemuck::pod_read_unaligned(s.get(path).unwrap())
}

#[test]
fn mod_test_get_simple_field() {
    let layout = my_struct_layout();
    let mut data = nested_bytes(1, 2.0, 3, 4);
    data.extend_from_slice(&5.0f32.to_ne_bytes());
    data.extend_from_slice(&6u32.to_ne_bytes());
    let test_dyn = DynStruct::from_bytes(data, layout);

    assert_eq!(read::<u32>(&test_dyn, &["nested", "a"]), 1u32);
    assert_eq!(read::<f32>(&test_dyn, &["nested", "b"]), 2.0f32);
    assert_eq!(read::<u32>(&test_dyn, &["nested", "c"]), 3u32);
    assert_eq!(read::<u32>(&test_dyn, &["nested", "d"]), 4u32);
    assert_eq!(test_dyn.get(&["nested"]).unwrap(), &nested_bytes(1, 2.0, 3, 4)[..]);
    assert_eq!(read::<f32>(&test_dyn, &["b"]), 5.0f32);
    assert_eq!(read::<u32>(&test_dyn, &["c"]), 6u32);

    let layout = my_struct2_layout();
    let mut data = Vec::new();
    data.extend_from_slice(bytemuck::bytes_of(&vec4(1.0, 2.0, 3.0, 4.0)));
    data.extend_from_slice(&nested_bytes(1, 2.0, 3, 4));
    for a in [1u32, 2, 3, 4] {
        data.extend_from_slice(&a.to_ne_bytes());
    }
    data.extend_from_slice(bytemuck::bytes_of(&uvec4(5, 6, 7, 8)));
    data.extend_from_slice(bytemuck::bytes_of(&ivec4(-5, -6, -7, -8)));
    let test_dyn = DynStruct::new(&data, &layout);

    assert_eq!(read::<u32>(&test_dyn, &["nested", "a"]), 1u32);
    assert_eq!(read::<f32>(&test_dyn, &["nested", "b"]), 2.0f32);
    assert_eq!(read::<u32>(&test_dyn, &["nested", "c"]), 3u32);
    assert_eq!(read::<u32>(&test_dyn, &["nested", "d"]), 4u32);
    assert_eq!(read::<Vec4>(&test_dyn, &["p"]), vec4(1.0, 2.0, 3.0, 4.0));
    assert_eq!(read::<u32>(&test_dyn, &["a1"]), 1u32);
    assert_eq!(read::<u32>(&test_dyn, &["a2"]), 2u32);
    assert_eq!(read::<u32>(&test_dyn, &["a3"]), 3u32);
    assert_eq!(read::<u32>(&test_dyn, &["a4"]), 4u32);
    assert_eq!(read::<UVec4>(&test_dyn, &["u"]), uvec4(5, 6, 7, 8));
    assert_eq!(read::<IVec4>(&test_dyn, &["i"]), ivec4(-5, -6, -7, -8));
}

#[test]
fn nested_field_offset_is_absolute() {
    let layout = DynLayout::new(
        "Parent",
        32,
        vec![field("x", 0, BaseType::Vec4), field("nested", 16, nested_struct(16))],
    );
    let f = layout.get_path(&["nested", "c"]).unwrap();
    assert_eq!(f.offset, 24);
    assert_eq!(f.ty, BaseType::U32);
    assert_eq!(layout.get_path(&["nested", "a"]).unwrap().offset, 16);
    assert_eq!(layout.get_path(&["x"]).unwrap().offset, 0);
}

#[test]
fn round_trip_every_declared_path() {
    let layout = my_struct2_layout();
    let data: Vec<u8> = (0..80u8).collect();
    let s = DynStruct::from_bytes(data.clone(), layout.clone());
    let paths: Vec<Vec<&str>> = vec![
        vec!["p"],
        vec!["nested"],
        vec!["nested", "a"],
        vec!["nested", "b"],
        vec!["nested", "c"],
        vec!["nested", "d"],
        vec!["a1"],
        vec!["a2"],
        vec!["a3"],
        vec!["a4"],
        vec!["u"],
        vec!["i"],
    ];
    for p in paths {
        let f = layout.get_path(&p).unwrap();
        let start = f.offset as usize;
        let end = start + f.ty.size_of();
        assert_eq!(s.get(&p).unwrap(), &data[start..end]);
    }
}

#[test]
fn unknown_paths_are_not_found() {
    let layout = my_struct_layout();
    let s = DynStruct::from_bytes(vec![0u8; 24], layout.clone());
    assert!(layout.get_path(&["missing"]).is_none());
    assert!(layout.get_path(&["nested", "missing"]).is_none());
    assert!(layout.get_path(&["c", "deeper"]).is_none());
    assert!(layout.get_path(&["nested", "a", "deeper"]).is_none());
    assert!(layout.get_path(&[]).is_none());
    assert!(s.get(&["missing"]).is_none());
    assert!(s.get(&["c", "deeper"]).is_none());
    assert!(s.get_path(&["nested", "zz"]).is_none());
}

#[test]
fn last_declared_member_wins() {
    let layout = DynLayout::new(
        "Twice",
        8,
        vec![field("x", 0, BaseType::U32), field("x", 4, BaseType::I32)],
    );
    let f = layout.get_path(&["x"]).unwrap();
    assert_eq!(f.offset, 4);
    assert_eq!(f.ty, BaseType::I32);
}

#[test]
fn members_must_lie_inside_their_parents() {
    let short = DynLayout::new("Short", 4, vec![field("x", 2, BaseType::U32)]);
    assert!(!short.fields_lie_within(0, short.size));
    assert!(my_struct_layout().fields_lie_within(0, 24));
    assert!(my_struct2_layout().fields_lie_within(0, 80));
    let misplaced = DynLayout::new("Misplaced", 32, vec![field("nested", 0, nested_struct(16))]);
    assert!(!misplaced.fields_lie_within(0, misplaced.size));
}

#[test]
fn get_mut_writes_in_place() {
    let layout = my_struct_layout();
    let mut s = DynStruct::from_bytes(vec![0u8; 24], layout);
    let slot = s.get_mut(&["nested", "c"]).unwrap();
    slot.copy_from_slice(&77u32.to_ne_bytes());
    assert_eq!(read::<u32>(&s, &["nested", "c"]), 77);
    assert_eq!(&s.data[8..12], &77u32.to_ne_bytes());
    assert!(s.get_mut(&["nope"]).is_none());
    *s.get_mut_raw(20, 1).first_mut().unwrap() = 9;
    assert_eq!(s.data[20], 9);
}

#[test]
fn set_checks_path_and_size() {
    let layout = my_struct_layout();
    let mut s = DynStruct::from_bytes(vec![0u8; 24], layout);
    assert!(s.set(&["c"], &42u32.to_ne_bytes()));
    assert_eq!(read::<u32>(&s, &["c"]), 42);
    assert!(!s.set(&["c"], &[1, 2]));
    assert!(!s.set(&["nope"], &[1, 2, 3, 4]));
    assert_eq!(read::<u32>(&s, &["c"]), 42);
    s.set_raw(0, &[9, 8]);
    assert_eq!(&s.data[0..3], &[9, 8, 0]);
    assert_eq!(s.get_raw(0, 2), &[9, 8]);
}

#[test]
fn append_type_grows_layout() {
    let mut layout = DynLayout::new("Grow", 0, vec![]);
    layout.append_type("a", BaseType::U32);
    layout.append_type("b", BaseType::Vec3);
    layout.append_type("c", BaseType::U8);
    assert_eq!(layout.size, 17);
    assert_eq!(layout.get_path(&["b"]).unwrap().offset, 4);
    assert_eq!(layout.get_path(&["c"]).unwrap().offset, 16);
    assert_eq!(layout.fields.len(), 3);
    assert_eq!(layout.fields[2].0, "c");
}

#[test]
fn append_new_type_wraps_value() {
    let mut layout = DynLayout::new("Wrap", 0, vec![]);
    layout.append_type("a", BaseType::U64);
    layout.append_new_type("id", BaseType::U32, "Id");
    assert_eq!(layout.size, 12);
    let wrapper = layout.get_path(&["id"]).unwrap();
    assert_eq!(wrapper.offset, 8);
    match &wrapper.ty {
        BaseType::Struct(inner) => {
            assert_eq!(inner.name, "Id");
            assert_eq!(inner.size, 4);
        }
        other => panic!("expected a record, got {other:?}"),
    }
    let inner = layout.get_path(&["id", "inner"]).unwrap();
    assert_eq!(inner.offset, 8);
    assert_eq!(inner.ty, BaseType::U32);
}

#[test]
fn catalog_sizes_match_glam() {
    let pairs: Vec<(BaseType, usize)> = vec![
        (BaseType::Void, 0),
        (BaseType::U8, size_of::<u8>()),
        (BaseType::U16, size_of::<u16>()),
        (BaseType::U32, size_of::<u32>()),
        (BaseType::U64, size_of::<u64>()),
        (BaseType::U128, size_of::<u128>()),
        (BaseType::I8, size_of::<i8>()),
        (BaseType::I16, size_of::<i16>()),
        (BaseType::I32, size_of::<i32>()),
        (BaseType::I64, size_of::<i64>()),
        (BaseType::I128, size_of::<i128>()),
        (BaseType::F32, size_of::<f32>()),
        (BaseType::F64, size_of::<f64>()),
        (BaseType::Bool, size_of::<bool>()),
        (BaseType::UVec2, size_of::<glam::UVec2>()),
        (BaseType::UVec3, size_of::<glam::UVec3>()),
        (BaseType::UVec4, size_of::<glam::UVec4>()),
        (BaseType::IVec2, size_of::<glam::IVec2>()),
        (BaseType::IVec3, size_of::<glam::IVec3>()),
        (BaseType::IVec4, size_of::<glam::IVec4>()),
        (BaseType::Vec2, size_of::<glam::Vec2>()),
        (BaseType::Vec3, size_of::<glam::Vec3>()),
        (BaseType::Vec4, size_of::<glam::Vec4>()),
        (BaseType::Mat2, size_of::<glam::Mat2>()),
        (BaseType::Mat3, size_of::<glam::Mat3>()),
        (BaseType::Mat4, size_of::<glam::Mat4>()),
        (BaseType::Quat, size_of::<glam::Quat>()),
        (BaseType::DVec2, size_of::<glam::DVec2>()),
        (BaseType::DVec3, size_of::<glam::DVec3>()),
        (BaseType::DVec4, size_of::<glam::DVec4>()),
        (BaseType::DMat2, size_of::<glam::DMat2>()),
        (BaseType::DMat3, size_of::<glam::DMat3>()),
        (BaseType::DMat4, size_of::<glam::DMat4>()),
        (BaseType::DAffine2, size_of::<glam::DAffine2>()),
        (BaseType::DAffine3, size_of::<glam::DAffine3>()),
    ];
    for (ty, size) in pairs {
        assert_eq!(ty.size_of(), size, "{ty:?}");
        assert_eq!(ty.const_size_of(), Some(size), "{ty:?}");
    }
    let record = BaseType::Struct(my_struct_layout());
    assert_eq!(record.size_of(), 24);
    assert_eq!(record.const_size_of(), None);
}

#[test]
fn rust_base_types() {
    assert!(BaseType::U32.rust_base_type());
    assert!(BaseType::F64.rust_base_type());
    assert!(!BaseType::Vec3.rust_base_type());
    assert!(!BaseType::Void.rust_base_type());
    assert!(!BaseType::Struct(my_struct_layout()).rust_base_type());
}

#[test]
fn base_type_of_rust_types() {
    assert_eq!(get_base_type::<u32>(), BaseType::U32);
    assert_eq!(get_base_type::<i8>(), BaseType::I8);
    assert_eq!(<u64 as IntoBaseType>::into_base_type(), BaseType::U64);
    assert_eq!(<u16 as BaseTypeInfo>::size(), 2);
    assert_eq!(<i128 as BaseTypeInfo>::size(), 16);
}

#[test]
fn cast_gives_whole_buffer() {
    let mut s = DynStruct::from_bytes((0..24u8).collect(), my_struct_layout());
    assert_eq!(s.cast().len(), 24);
    assert_eq!(s.cast()[5], 5);
    s.cast_mut()[5] = 50;
    assert_eq!(s.data[5], 50);
}

#[test]
fn catalog_traits_for_glam_types() {
    assert_eq!(get_base_type::<glam::Vec3>(), BaseType::Vec3);
    assert_eq!(get_base_type::<glam::DAffine3>(), BaseType::DAffine3);
    assert_eq!(<glam::Mat4 as BaseTypeInfo>::size(), size_of::<glam::Mat4>());
    assert_eq!(<glam::Quat as BaseTypeInfo>::size(), BaseType::Quat.size_of());
}

#[test]
fn listing_shows_sizes_offsets_and_kinds() {
    let inner = DynLayout::new("Inner", 1, vec![field("x", 4, BaseType::U8)]);
    let layout = DynLayout::new(
        "Grow",
        8,
        vec![field("a", 0, BaseType::U32), field("n", 4, BaseType::Struct(Arc::new(inner))), field("v", 5, BaseType::Vec2)],
    );
    let mut out = String::new();
    layout.format_with_offsets(0, &mut out);
    let p14 = " ".repeat(14);
    let p18 = " ".repeat(18);
    let expected = format!(
        "  Size Offset (bytes)\n-----------------------\n     8      0  Grow\n{p14} {{\n     4      0      a: u32\n     1      4      n: Inner\n{p18} {{\n     1      4          x: u8\n{p18} }}\n     8      5      v: Vec2\n{p14} }}\n"
    );
    assert_eq!(out, expected);
}
