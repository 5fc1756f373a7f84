use spirv_reflect::text::{capitalize, u64_to_string};
use spirv_reflect::types::Type;

fn f32_ty() -> Type {
    Type::Float { width: 32 }
}

fn vec_of(n: u32, element: Type) -> Type {
    Type::Vector { element_count: n, element_type: Box::new(element) }
}

#[test]
fn scalars_and_vectors_occupy_one_location() {
    assert_eq!(f32_ty().occupied_locations(), Some(1));
    assert_eq!(Type::Int { width: 32, signedness: false }.occupied_locations(), Some(1));
    assert_eq!(vec_of(4, f32_ty()).occupied_locations(), Some(1));
    assert_eq!(Type::Bool.occupied_locations(), None);
}

#[test]
fn matrices_and_arrays_multiply_locations() {
    let mat4 = Type::Matrix { column_count: 4, column_type: Box::new(vec_of(4, f32_ty())) };
    assert_eq!(mat4.occupied_locations(), Some(4));
    let arr = Type::Array { element_count: 3, element_type: Box::new(vec_of(2, f32_ty())) };
    assert_eq!(arr.occupied_locations(), Some(3));
}

#[test]
fn pointers_pass_through_and_aggregates_have_none() {
    let ptr = Type::Pointer {
        storage_class: spirv_reflect::enums::StorageClass::Input,
        pointee_type: Box::new(vec_of(2, f32_ty())),
    };
    assert_eq!(ptr.occupied_locations(), Some(1));
    let st = Type::Struct {
        name: "S".to_string(),
        member_types: vec![f32_ty()],
        member_type_ids: vec![6],
        interface_block: None,
    };
    assert_eq!(st.occupied_locations(), None);
    assert_eq!(Type::Sampler.occupied_locations(), None);
}

#[test]
fn formats_follow_width_count_and_kind() {
    assert_eq!(f32_ty().format(), Some("R32Sfloat".to_string()));
    assert_eq!(Type::Int { width: 8, signedness: false }.format(), Some("R8Uint".to_string()));
    assert_eq!(Type::Int { width: 64, signedness: true }.format(), Some("R64Sint".to_string()));
    assert_eq!(vec_of(2, f32_ty()).format(), Some("R32G32Sfloat".to_string()));
    assert_eq!(vec_of(3, f32_ty()).format(), Some("R32G32B32Sfloat".to_string()));
    assert_eq!(vec_of(4, f32_ty()).format(), Some("R32G32B32A32Sfloat".to_string()));
    assert_eq!(
        vec_of(4, Type::Int { width: 32, signedness: false }).format(),
        Some("R32G32B32A32Uint".to_string())
    );
}

#[test]
fn wide_vectors_have_no_format() {
    // vectors demand one-slot 32-bit elements
    assert_eq!(vec_of(2, Type::Float { width: 64 }).format(), None);
    assert_eq!(vec_of(5, f32_ty()).format(), None);
    assert_eq!(Type::Bool.format(), None);
}

#[test]
fn host_shapes_of_scalars() {
    let rt = Type::Int { width: 32, signedness: true }.rust_type().unwrap();
    assert_eq!(rt.name, "i32");
    assert_eq!(rt.size, Some(4));
    assert_eq!(rt.alignment, 4);

    let rt = Type::Bool.rust_type().unwrap();
    assert_eq!(rt.name, "u32");
    assert_eq!(rt.size, Some(4));

    let rt = Type::Int { width: 64, signedness: false }.rust_type().unwrap();
    assert_eq!(rt.name, "u64");
    assert_eq!(rt.size, Some(8));
    assert_eq!(rt.alignment, 8);
}

#[test]
fn host_shapes_of_composites_inherit_alignment() {
    let v3 = vec_of(3, f32_ty());
    let rt = v3.rust_type().unwrap();
    assert_eq!(rt.name, "[f32; 3]");
    assert_eq!(rt.size, Some(12));
    // the element's alignment, with no rounding to sixteen bytes
    assert_eq!(rt.alignment, 4);

    let arr = Type::Array { element_count: 5, element_type: Box::new(vec_of(3, f32_ty())) };
    let rt = arr.rust_type().unwrap();
    assert_eq!(rt.name, "[[f32; 3]; 5]");
    assert_eq!(rt.size, Some(60));
    assert_eq!(rt.alignment, 4);
}

#[test]
fn runtime_arrays_are_unsized() {
    let ra = Type::RuntimeArray { element_type: Box::new(f32_ty()) };
    let rt = ra.rust_type().unwrap();
    assert_eq!(rt.name, "[f32]");
    assert_eq!(rt.size, None);
    assert_eq!(rt.alignment, 4);
}

#[test]
fn struct_host_layout_is_refused() {
    let st = Type::Struct {
        name: "S".to_string(),
        member_types: vec![f32_ty()],
        member_type_ids: vec![6],
        interface_block: None,
    };
    assert_eq!(st.rust_type(), None);
}

#[test]
fn decimal_rendering() {
    assert_eq!(u64_to_string(0), "0");
    assert_eq!(u64_to_string(7), "7");
    assert_eq!(u64_to_string(4294967295), "4294967295");
    assert_eq!(u64_to_string(u64::MAX), "18446744073709551615");
}

#[test]
fn capitalizes_ascii_names() {
    assert_eq!(capitalize("main"), "Main");
    assert_eq!(capitalize("Main"), "Main");
    assert_eq!(capitalize(""), "");
    assert_eq!(capitalize("x9"), "X9");
}
