use spirv_reflect::enums::{Decoration, ExecutionModel, StorageClass};
use spirv_reflect::parse::{Instruction, Spirv};
use spirv_reflect::shader::Shader;
use spirv_reflect::{_is_builtin, member_name_from_id, name_from_id, Error};

fn doc(instructions: Vec<Instruction>) -> Spirv {
    Spirv { version_major: 1, version_minor: 0, bound: 64, instructions }
}

fn float_input_types() -> Vec<Instruction> {
    vec![
        Instruction::TypeFloat { result_id: 6, width: 32 },
        Instruction::TypeVector { result_id: 7, component_id: 6, count: 4 },
        Instruction::TypePointer {
            result_id: 8,
            storage_class: StorageClass::Input,
            type_id: 7,
        },
        Instruction::Variable {
            result_type_id: 8,
            result_id: 9,
            storage_class: StorageClass::Input,
            initializer: None,
        },
    ]
}

fn entry(interface: Vec<u32>) -> Instruction {
    Instruction::EntryPoint {
        execution: ExecutionModel::Vertex,
        id: 4,
        name: "main".to_string(),
        interface,
    }
}

#[test]
fn interface_variables_demand_a_location() {
    let mut instructions = float_input_types();
    instructions.push(Instruction::Name { target_id: 9, name: "position".to_string() });
    instructions.push(entry(vec![9]));
    assert_eq!(
        Shader::from_spirv(doc(instructions)),
        Err(Error::MissingDecoration { id: 9, decoration: Decoration::Location })
    );
}

#[test]
fn interface_ids_demand_a_variable() {
    let instructions = vec![entry(vec![9])];
    assert_eq!(
        Shader::from_spirv(doc(instructions)),
        Err(Error::UnresolvedReference { id: 9 })
    );
}

#[test]
fn builtin_interface_ids_are_skipped() {
    let mut instructions = float_input_types();
    instructions.push(Instruction::Decorate {
        target_id: 9,
        decoration: Decoration::BuiltIn,
        params: vec![0],
    });
    instructions.push(entry(vec![9]));
    let shader = Shader::from_spirv(doc(instructions)).unwrap();
    assert_eq!(shader.entry_points[0].inputs, vec![]);
}

#[test]
fn empty_named_interface_ids_are_skipped() {
    let mut instructions = float_input_types();
    instructions.push(Instruction::Name { target_id: 9, name: "".to_string() });
    instructions.push(entry(vec![9]));
    let shader = Shader::from_spirv(doc(instructions)).unwrap();
    assert_eq!(shader.entry_points[0].inputs, vec![]);
}

#[test]
fn descriptors_demand_a_binding() {
    let mut instructions = vec![
        Instruction::TypeFloat { result_id: 6, width: 32 },
        Instruction::TypeStruct { result_id: 12, member_types: vec![6] },
        Instruction::TypePointer {
            result_id: 13,
            storage_class: StorageClass::Uniform,
            type_id: 12,
        },
        Instruction::Variable {
            result_type_id: 13,
            result_id: 14,
            storage_class: StorageClass::Uniform,
            initializer: None,
        },
    ];
    instructions.push(Instruction::Name { target_id: 12, name: "Block".to_string() });
    instructions.push(Instruction::Name { target_id: 14, name: "block".to_string() });
    instructions.push(Instruction::Decorate {
        target_id: 14,
        decoration: Decoration::DescriptorSet,
        params: vec![0],
    });
    assert_eq!(
        Shader::from_spirv(doc(instructions)),
        Err(Error::MissingDecoration { id: 14, decoration: Decoration::Binding })
    );
}

#[test]
fn descriptor_variables_must_be_pointers() {
    let instructions = vec![
        Instruction::TypeFloat { result_id: 6, width: 32 },
        Instruction::Name { target_id: 14, name: "odd".to_string() },
        Instruction::Variable {
            result_type_id: 6,
            result_id: 14,
            storage_class: StorageClass::Uniform,
            initializer: None,
        },
        Instruction::Decorate {
            target_id: 14,
            decoration: Decoration::DescriptorSet,
            params: vec![0],
        },
        Instruction::Decorate {
            target_id: 14,
            decoration: Decoration::Binding,
            params: vec![0],
        },
    ];
    assert_eq!(
        Shader::from_spirv(doc(instructions)),
        Err(Error::UnsupportedDescriptorShape)
    );
}

#[test]
fn decoration_lookups_read_the_tables() {
    let instructions = vec![
        Instruction::Decorate {
            target_id: 9,
            decoration: Decoration::Location,
            params: vec![3],
        },
        Instruction::MemberDecorate {
            target_id: 11,
            member: 1,
            decoration: Decoration::Offset,
            params: vec![16],
        },
    ];
    let shader = Shader::from_spirv(doc(instructions)).unwrap();
    assert_eq!(shader._decoration(9, Decoration::Location), Some(vec![3]));
    assert_eq!(shader._decoration(9, Decoration::Binding), None);
    assert_eq!(shader._member_decoration(11, 1, Decoration::Offset), Some(vec![16]));
    assert_eq!(shader._member_decoration(11, 0, Decoration::Offset), None);
}

#[test]
fn names_fall_back_to_unnamed() {
    let spirv = doc(vec![
        Instruction::Name { target_id: 9, name: "position".to_string() },
        Instruction::Name { target_id: 10, name: "".to_string() },
        Instruction::MemberName { target_id: 11, member: 0, name: "val1".to_string() },
    ]);
    assert_eq!(name_from_id(&spirv, 9), "position");
    assert_eq!(name_from_id(&spirv, 10), "__unnamed");
    assert_eq!(name_from_id(&spirv, 12), "__unnamed");
    assert_eq!(member_name_from_id(&spirv, 11, 0), "val1");
    assert_eq!(member_name_from_id(&spirv, 11, 1), "__unnamed");
}

#[test]
fn builtin_status_follows_the_type_chain() {
    let mut instructions = float_input_types();
    instructions.push(Instruction::Decorate {
        target_id: 7,
        decoration: Decoration::BuiltIn,
        params: vec![0],
    });
    instructions.push(Instruction::TypeStruct { result_id: 11, member_types: vec![7] });
    let spirv = doc(instructions);
    // the vector type is decorated directly
    assert!(_is_builtin(&spirv, 7));
    // the pointer and the variable reach it through their underlying type
    assert!(_is_builtin(&spirv, 8));
    assert!(_is_builtin(&spirv, 9));
    // the struct reaches it through a member
    assert!(_is_builtin(&spirv, 11));
    // the scalar element is untouched
    assert!(!_is_builtin(&spirv, 6));
    assert!(!_is_builtin(&spirv, 99));
}

#[test]
fn execution_modes_attach_to_their_entry_point() {
    let mut instructions = vec![entry(vec![])];
    instructions.push(Instruction::ExecutionMode {
        target_id: 4,
        mode: spirv_reflect::enums::ExecutionMode::OutputVertices,
        literals: vec![3],
    });
    instructions.push(Instruction::ExecutionMode {
        target_id: 5,
        mode: spirv_reflect::enums::ExecutionMode::OriginUpperLeft,
        literals: vec![],
    });
    let shader = Shader::from_spirv(doc(instructions)).unwrap();
    assert_eq!(shader.entry_points[0].execution_modes, vec![
        spirv_reflect::enums::ExecutionMode::OutputVertices,
    ]);
}
