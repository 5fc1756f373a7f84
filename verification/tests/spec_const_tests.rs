use spirv_reflect::spec_consts::{
    SpecializationConstant, SpecializationConstantKind, SpecializationMapEntry,
};
use spirv_reflect::types::{RustType, Type};
use spirv_reflect::Error;

fn constant(id: u32, name: &str, size: usize, alignment: usize) -> SpecializationConstant {
    SpecializationConstant {
        constant_id: id,
        name: name.to_string(),
        kind: SpecializationConstantKind::Scalar { default_value: vec![0] },
        spirv_type: Type::Int { width: 32, signedness: true },
        rust_type: RustType { name: "i32".to_string(), size: Some(size), alignment },
        rust_size: size,
    }
}

#[test]
fn three_constants_pack_to_aligned_offsets() {
    let consts = vec![
        constant(0, "a", 4, 4),
        constant(1, "b", 4, 4),
        constant(2, "c", 8, 8),
    ];
    let entries = spirv_reflect::spec_consts::write(&consts).unwrap();
    assert_eq!(entries, vec![
        SpecializationMapEntry { constant_id: 0, offset: 0, size: 4 },
        SpecializationMapEntry { constant_id: 1, offset: 4, size: 4 },
        SpecializationMapEntry { constant_id: 2, offset: 8, size: 8 },
    ]);
}

#[test]
fn offsets_round_up_to_the_advancing_constant_alignment() {
    let consts = vec![constant(0, "a", 1, 4), constant(1, "b", 8, 8)];
    let entries = spirv_reflect::spec_consts::write(&consts).unwrap();
    // the first constant advances by its one byte rounded up to four
    assert_eq!(entries, vec![
        SpecializationMapEntry { constant_id: 0, offset: 0, size: 1 },
        SpecializationMapEntry { constant_id: 1, offset: 4, size: 8 },
    ]);
}

#[test]
fn zero_sized_constants_are_refused() {
    let consts = vec![constant(0, "a", 0, 4)];
    assert_eq!(spirv_reflect::spec_consts::write(&consts), Err(Error::UnsizedType));
}

#[test]
fn empty_lists_pack_to_nothing() {
    assert_eq!(spirv_reflect::spec_consts::write(&vec![]), Ok(vec![]));
}
