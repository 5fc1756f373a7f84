use spirv_reflect::parse::Instruction;
use spirv_reflect::shader::Shader;
use spirv_reflect::parse::Spirv;
use spirv_reflect::types::{extract_types, Type};
use spirv_reflect::Error;

fn doc(instructions: Vec<Instruction>) -> Spirv {
    Spirv { version_major: 1, version_minor: 0, bound: 64, instructions }
}

#[test]
fn resolves_forward_references() {
    // the vector names its element before the element is declared
    let instructions = vec![
        Instruction::TypeVector { result_id: 7, component_id: 6, count: 4 },
        Instruction::TypeFloat { result_id: 6, width: 32 },
    ];
    let types = extract_types(&instructions, &vec![], &vec![]).unwrap();
    assert_eq!(types, vec![
        (7, Type::Vector {
            element_count: 4,
            element_type: Box::new(Type::Float { width: 32 }),
        }),
        (6, Type::Float { width: 32 }),
    ]);
}

#[test]
fn resolution_is_total_over_declared_ids() {
    let instructions = vec![
        Instruction::TypeFloat { result_id: 6, width: 32 },
        Instruction::TypeVector { result_id: 7, component_id: 6, count: 4 },
        Instruction::TypeMatrix { result_id: 8, column_type_id: 7, column_count: 4 },
        Instruction::TypeRuntimeArray { result_id: 9, type_id: 7 },
    ];
    let types = extract_types(&instructions, &vec![], &vec![]).unwrap();
    let ids: Vec<u32> = types.iter().map(|p| p.0).collect();
    assert_eq!(ids, vec![6, 7, 8, 9]);
}

#[test]
fn missing_ids_are_unresolved_references() {
    let instructions = vec![Instruction::TypeVector { result_id: 7, component_id: 6, count: 4 }];
    assert_eq!(
        extract_types(&instructions, &vec![], &vec![]),
        Err(Error::UnresolvedReference { id: 6 })
    );
}

#[test]
fn type_cycles_are_unresolved_references() {
    let instructions = vec![
        Instruction::TypeVector { result_id: 6, component_id: 7, count: 4 },
        Instruction::TypeVector { result_id: 7, component_id: 6, count: 4 },
    ];
    assert!(matches!(
        extract_types(&instructions, &vec![], &vec![]),
        Err(Error::UnresolvedReference { .. })
    ));
}

#[test]
fn duplicate_type_declarations_are_rejected() {
    let instructions = vec![
        Instruction::TypeFloat { result_id: 6, width: 32 },
        Instruction::TypeFloat { result_id: 6, width: 32 },
    ];
    assert_eq!(
        extract_types(&instructions, &vec![], &vec![]),
        Err(Error::DuplicateDeclaration { id: 6 })
    );
}

#[test]
fn array_lengths_come_from_two_word_constants() {
    let base = vec![
        Instruction::TypeInt { result_id: 5, width: 64, signedness: false },
        Instruction::TypeFloat { result_id: 6, width: 32 },
    ];

    let mut instructions = base.clone();
    instructions.push(Instruction::Constant {
        result_type_id: 5,
        result_id: 9,
        data: vec![0x0000_0005, 0x0000_0000],
    });
    instructions.push(Instruction::TypeArray { result_id: 10, type_id: 6, length_id: 9 });
    let types = extract_types(&instructions, &vec![], &vec![]).unwrap();
    let array = types.iter().find(|p| p.0 == 10).map(|p| &p.1).unwrap();
    assert_eq!(*array, Type::Array {
        element_count: 5,
        element_type: Box::new(Type::Float { width: 32 }),
    });

    let mut instructions = base.clone();
    instructions.push(Instruction::Constant {
        result_type_id: 5,
        result_id: 9,
        data: vec![0xFFFF_FFFF, 0x0000_0000],
    });
    instructions.push(Instruction::TypeArray { result_id: 10, type_id: 6, length_id: 9 });
    let types = extract_types(&instructions, &vec![], &vec![]).unwrap();
    let array = types.iter().find(|p| p.0 == 10).map(|p| &p.1).unwrap();
    assert_eq!(*array, Type::Array {
        element_count: 4294967295,
        element_type: Box::new(Type::Float { width: 32 }),
    });
}

#[test]
fn sixty_four_bit_array_lengths_reassemble() {
    let instructions = vec![
        Instruction::TypeInt { result_id: 5, width: 64, signedness: false },
        Instruction::TypeFloat { result_id: 6, width: 32 },
        Instruction::Constant {
            result_type_id: 5,
            result_id: 9,
            data: vec![0x0000_0001, 0x0000_0002],
        },
        Instruction::TypeArray { result_id: 10, type_id: 6, length_id: 9 },
    ];
    let types = extract_types(&instructions, &vec![], &vec![]).unwrap();
    let array = types.iter().find(|p| p.0 == 10).map(|p| &p.1).unwrap();
    assert_eq!(*array, Type::Array {
        element_count: 0x0000_0002_0000_0001,
        element_type: Box::new(Type::Float { width: 32 }),
    });
}

#[test]
fn missing_array_length_constants_are_unresolved() {
    let instructions = vec![
        Instruction::TypeFloat { result_id: 6, width: 32 },
        Instruction::TypeArray { result_id: 10, type_id: 6, length_id: 9 },
    ];
    assert_eq!(
        extract_types(&instructions, &vec![], &vec![]),
        Err(Error::UnresolvedReference { id: 9 })
    );
}

#[test]
fn duplicate_names_are_rejected_even_when_equal() {
    let spirv = doc(vec![
        Instruction::Name { target_id: 9, name: "x".to_string() },
        Instruction::Name { target_id: 9, name: "x".to_string() },
    ]);
    assert_eq!(Shader::from_spirv(spirv), Err(Error::DuplicateDeclaration { id: 9 }));
}

#[test]
fn distinct_names_pass() {
    let spirv = doc(vec![
        Instruction::Name { target_id: 9, name: "x".to_string() },
        Instruction::Name { target_id: 10, name: "x".to_string() },
    ]);
    assert!(Shader::from_spirv(spirv).is_ok());
}

#[test]
fn unnamed_structs_are_unresolved() {
    let instructions = vec![
        Instruction::TypeFloat { result_id: 6, width: 32 },
        Instruction::TypeStruct { result_id: 12, member_types: vec![6] },
    ];
    assert_eq!(
        extract_types(&instructions, &vec![], &vec![]),
        Err(Error::UnresolvedReference { id: 12 })
    );
}

#[test]
fn spec_constants_demand_their_spec_id() {
    let spirv = doc(vec![
        Instruction::Name { target_id: 18, name: "index".to_string() },
        Instruction::TypeInt { result_id: 15, width: 32, signedness: true },
        Instruction::SpecConstant { result_type_id: 15, result_id: 18, data: vec![2] },
    ]);
    assert!(matches!(
        Shader::from_spirv(spirv),
        Err(Error::MissingDecoration { id: 18, .. })
    ));
}

#[test]
fn spec_constants_without_host_size_are_unsized() {
    let spirv = doc(vec![
        Instruction::Name { target_id: 18, name: "p".to_string() },
        Instruction::Name { target_id: 12, name: "S".to_string() },
        Instruction::Decorate {
            target_id: 18,
            decoration: spirv_reflect::enums::Decoration::SpecId,
            params: vec![0],
        },
        Instruction::TypeFloat { result_id: 6, width: 32 },
        Instruction::TypeStruct { result_id: 12, member_types: vec![6] },
        Instruction::SpecConstantComposite { result_type_id: 12, result_id: 18, data: vec![0] },
    ]);
    assert_eq!(Shader::from_spirv(spirv), Err(Error::UnsizedType));
}

#[test]
fn spec_constants_sort_by_constant_id() {
    let spirv = doc(vec![
        Instruction::Name { target_id: 18, name: "b".to_string() },
        Instruction::Name { target_id: 19, name: "a".to_string() },
        Instruction::Decorate {
            target_id: 18,
            decoration: spirv_reflect::enums::Decoration::SpecId,
            params: vec![7],
        },
        Instruction::Decorate {
            target_id: 19,
            decoration: spirv_reflect::enums::Decoration::SpecId,
            params: vec![3],
        },
        Instruction::TypeBool { result_id: 15 },
        Instruction::SpecConstantTrue { result_type_id: 15, result_id: 18 },
        Instruction::SpecConstantFalse { result_type_id: 15, result_id: 19 },
    ]);
    let shader = Shader::from_spirv(spirv).unwrap();
    let ids: Vec<u32> = shader.specialization_constants.iter().map(|c| c.constant_id).collect();
    assert_eq!(ids, vec![3, 7]);
    assert_eq!(shader.specialization_constants[0].name, "a");
    assert_eq!(shader.specialization_constants[1].name, "b");
}
