use spirv_reflect::descriptor_sets::{
    DescriptorArray, DescriptorDesc, DescriptorDimensions, DescriptorKind,
};
use spirv_reflect::entry_point::{EntryPoint, InterfaceVariable};
use spirv_reflect::enums::{Capability, ExecutionMode, ExecutionModel, StorageClass};
use spirv_reflect::parse::parse_spirv;
use spirv_reflect::shader::Shader;
use spirv_reflect::spec_consts::{SpecializationConstantKind, SpecializationMapEntry};
use spirv_reflect::types::Type;
use spirv_reflect::reflect;

fn words_to_bytes_le(words: &[u32]) -> Vec<u8> {
    let mut bytes = Vec::new();
    for w in words {
        bytes.extend_from_slice(&w.to_le_bytes());
    }
    bytes
}

const MAGIC: u32 = 0x0723_0203;

/// A hand-assembled passthrough vertex shader: one `vec4 position` input.
fn passthrough_vertex_shader() -> Vec<u8> {
    let mut words = vec![MAGIC, 0x0001_0000, 0, 20, 0];
    // OpCapability Shader
    words.extend_from_slice(&[(2 << 16) | 17, 1]);
    // OpEntryPoint Vertex 4 "main" 9
    words.extend_from_slice(&[(6 << 16) | 15, 0, 4, 0x6E69_616D, 0, 9]);
    // OpName 9 "position"
    words.extend_from_slice(&[(5 << 16) | 5, 9, 0x6973_6F70, 0x6E6F_6974, 0]);
    // OpDecorate 9 Location 0
    words.extend_from_slice(&[(4 << 16) | 71, 9, 30, 0]);
    // OpTypeFloat 6 32
    words.extend_from_slice(&[(3 << 16) | 22, 6, 32]);
    // OpTypeVector 7 6 4
    words.extend_from_slice(&[(4 << 16) | 23, 7, 6, 4]);
    // OpTypePointer 8 Input 7
    words.extend_from_slice(&[(4 << 16) | 32, 8, 1, 7]);
    // OpVariable 8 9 Input
    words.extend_from_slice(&[(4 << 16) | 59, 8, 9, 1]);
    words_to_bytes_le(&words)
}

#[test]
fn simple_shader() {
    let spirv = parse_spirv(&passthrough_vertex_shader())
        .expect("failed to parse the hand-assembled vertex shader");

    let shader = Shader::from_spirv(spirv).unwrap();

    assert_eq!(shader.capabilities, vec![Capability::Shader]);
    assert_eq!(shader.entry_points, vec![EntryPoint {
        execution_model: ExecutionModel::Vertex,
        execution_modes: vec![],
        id: 4,
        name: "main".to_string(),
        inputs: vec![InterfaceVariable {
            name: "position".to_string(),
            location: 0,
            spirv_type: Type::Pointer {
                storage_class: StorageClass::Input,
                pointee_type: Box::new(Type::Vector {
                    element_count: 4,
                    element_type: Box::new(Type::Float { width: 32 }),
                }),
            },
        }],
        outputs: vec![],
    }]);
}

/// A hand-assembled fragment shader with a combined image sampler, a
/// uniform block, a specialization constant, a `vec2` input and a `vec4`
/// output.
fn textured_fragment_shader() -> Vec<u8> {
    let mut words = vec![MAGIC, 0x0001_0000, 0, 64, 0];
    // OpCapability Shader
    words.extend_from_slice(&[(2 << 16) | 17, 1]);
    // OpEntryPoint Fragment 4 "main" 29 37
    words.extend_from_slice(&[(7 << 16) | 15, 4, 4, 0x6E69_616D, 0, 29, 37]);
    // OpExecutionMode 4 OriginUpperLeft
    words.extend_from_slice(&[(3 << 16) | 16, 4, 7]);
    // OpName 4 "main"
    words.extend_from_slice(&[(4 << 16) | 5, 4, 0x6E69_616D, 0]);
    // OpName 12 "Block"
    words.extend_from_slice(&[(4 << 16) | 5, 12, 0x636F_6C42, 0x0000_006B]);
    // OpName 14 "block"
    words.extend_from_slice(&[(4 << 16) | 5, 14, 0x636F_6C62, 0x0000_006B]);
    // OpName 18 "index"
    words.extend_from_slice(&[(4 << 16) | 5, 18, 0x6564_6E69, 0x0000_0078]);
    // OpName 29 "f_color"
    words.extend_from_slice(&[(4 << 16) | 5, 29, 0x6F63_5F66, 0x0072_6F6C]);
    // OpName 33 "u_texture"
    words.extend_from_slice(&[(5 << 16) | 5, 33, 0x6574_5F75, 0x7275_7478, 0x0000_0065]);
    // OpName 37 "v_texcoords"
    words.extend_from_slice(&[(5 << 16) | 5, 37, 0x6574_5F76, 0x6F6F_6378, 0x0073_6472]);
    // OpDecorate 12 Block
    words.extend_from_slice(&[(3 << 16) | 71, 12, 2]);
    // OpDecorate 14 DescriptorSet 0, Binding 1
    words.extend_from_slice(&[(4 << 16) | 71, 14, 34, 0]);
    words.extend_from_slice(&[(4 << 16) | 71, 14, 33, 1]);
    // OpDecorate 18 SpecId 5
    words.extend_from_slice(&[(4 << 16) | 71, 18, 1, 5]);
    // OpDecorate 29 Location 0
    words.extend_from_slice(&[(4 << 16) | 71, 29, 30, 0]);
    // OpDecorate 33 DescriptorSet 0, Binding 0
    words.extend_from_slice(&[(4 << 16) | 71, 33, 34, 0]);
    words.extend_from_slice(&[(4 << 16) | 71, 33, 33, 0]);
    // OpDecorate 37 Location 0
    words.extend_from_slice(&[(4 << 16) | 71, 37, 30, 0]);
    // OpTypeFloat 6 32
    words.extend_from_slice(&[(3 << 16) | 22, 6, 32]);
    // OpTypeVector 7 6 4
    words.extend_from_slice(&[(4 << 16) | 23, 7, 6, 4]);
    // OpTypeStruct 12 (7)
    words.extend_from_slice(&[(3 << 16) | 30, 12, 7]);
    // OpTypePointer 13 Uniform 12
    words.extend_from_slice(&[(4 << 16) | 32, 13, 2, 12]);
    // OpVariable 13 14 Uniform
    words.extend_from_slice(&[(4 << 16) | 59, 13, 14, 2]);
    // OpTypeInt 15 32 1
    words.extend_from_slice(&[(4 << 16) | 21, 15, 32, 1]);
    // OpSpecConstant 15 18 2
    words.extend_from_slice(&[(4 << 16) | 50, 15, 18, 2]);
    // OpTypePointer 28 Output 7
    words.extend_from_slice(&[(4 << 16) | 32, 28, 3, 7]);
    // OpVariable 28 29 Output
    words.extend_from_slice(&[(4 << 16) | 59, 28, 29, 3]);
    // OpTypeImage 30 6 2D depth=0 arrayed=0 ms=0 sampled=1 Unknown
    words.extend_from_slice(&[(9 << 16) | 25, 30, 6, 1, 0, 0, 0, 1, 0]);
    // OpTypeSampledImage 31 30
    words.extend_from_slice(&[(3 << 16) | 27, 31, 30]);
    // OpTypePointer 32 UniformConstant 31
    words.extend_from_slice(&[(4 << 16) | 32, 32, 0, 31]);
    // OpVariable 32 33 UniformConstant
    words.extend_from_slice(&[(4 << 16) | 59, 32, 33, 0]);
    // OpTypeVector 35 6 2
    words.extend_from_slice(&[(4 << 16) | 23, 35, 6, 2]);
    // OpTypePointer 36 Input 35
    words.extend_from_slice(&[(4 << 16) | 32, 36, 1, 35]);
    // OpVariable 36 37 Input
    words.extend_from_slice(&[(4 << 16) | 59, 36, 37, 1]);
    words_to_bytes_le(&words)
}

#[test]
fn reflects_a_textured_fragment_shader() {
    let reflection = reflect(&textured_fragment_shader()).unwrap();
    let shader = &reflection.shader;

    assert_eq!(shader.capabilities, vec![Capability::Shader]);

    assert_eq!(shader.entry_points.len(), 1);
    let ep = &shader.entry_points[0];
    assert_eq!(ep.execution_model, ExecutionModel::Fragment);
    assert_eq!(ep.id, 4);
    assert_eq!(ep.name, "main");
    assert_eq!(ep.execution_modes, vec![ExecutionMode::OriginUpperLeft]);
    assert_eq!(ep.inputs.len(), 1);
    assert_eq!(ep.inputs[0].name, "v_texcoords");
    assert_eq!(ep.outputs.len(), 1);
    assert_eq!(ep.outputs[0].name, "f_color");

    // descriptors appear in decoration order: the block first, the sampler second
    assert_eq!(shader.descriptors.len(), 2);
    assert_eq!(shader.descriptors[0].descriptor_set, 0);
    assert_eq!(shader.descriptors[0].binding_point, 1);
    assert_eq!(shader.descriptors[0].name, "block");
    assert_eq!(shader.descriptors[1].descriptor_set, 0);
    assert_eq!(shader.descriptors[1].binding_point, 0);
    assert_eq!(shader.descriptors[1].name, "u_texture");

    assert_eq!(reflection.descriptor_descs, vec![
        DescriptorDesc {
            set: 0,
            binding: 1,
            ty: DescriptorKind::Buffer { dynamic: Some(false), storage: false },
            array_count: 1,
            readonly: true,
        },
        DescriptorDesc {
            set: 0,
            binding: 0,
            ty: DescriptorKind::CombinedImageSampler {
                sampled: true,
                dimensions: DescriptorDimensions::TwoDimensional,
                multisampled: false,
                array_layers: DescriptorArray::NonArrayed,
            },
            array_count: 1,
            readonly: true,
        },
    ]);

    assert_eq!(shader.specialization_constants.len(), 1);
    let sc = &shader.specialization_constants[0];
    assert_eq!(sc.constant_id, 5);
    assert_eq!(sc.name, "index");
    assert_eq!(sc.kind, SpecializationConstantKind::Scalar { default_value: vec![2] });
    assert_eq!(sc.rust_type.name, "i32");
    assert_eq!(sc.rust_size, 4);

    assert_eq!(reflection.specialization_map, vec![SpecializationMapEntry {
        constant_id: 5,
        offset: 0,
        size: 4,
    }]);

    assert_eq!(reflection.entry_point_interfaces.len(), 1);
    let iface = &reflection.entry_point_interfaces[0];
    assert_eq!(iface.name, "main");
    assert_eq!(iface.inputs.len(), 1);
    assert_eq!(iface.inputs[0].location, 0);
    assert_eq!(iface.inputs[0].name, "v_texcoords");
    assert_eq!(iface.inputs[0].format, "R32G32Sfloat");
    assert_eq!(iface.inputs[0].occupied, 1);
    assert_eq!(iface.outputs.len(), 1);
    assert_eq!(iface.outputs[0].format, "R32G32B32A32Sfloat");

    assert_eq!(reflection.interface_structs.len(), 2);
    assert_eq!(reflection.interface_structs[0].name, "MainInput");
    assert_eq!(reflection.interface_structs[1].name, "MainOutput");

    assert_eq!(reflection.push_constant_range, None);
}

#[test]
fn set_and_binding_counts_follow_the_descriptors() {
    let reflection = reflect(&textured_fragment_shader()).unwrap();
    let descriptors = &reflection.shader.descriptors;
    assert_eq!(spirv_reflect::descriptor_sets::num_sets(descriptors), 1);
    assert_eq!(spirv_reflect::descriptor_sets::num_bindings_in_set(descriptors, 0), 2);
    assert_eq!(spirv_reflect::descriptor_sets::num_bindings_in_set(descriptors, 1), 0);
}

#[test]
fn reflection_is_deterministic() {
    let bytes = textured_fragment_shader();
    let first = reflect(&bytes).unwrap();
    let second = reflect(&bytes).unwrap();
    assert_eq!(first, second);
}

#[test]
fn push_constant_range_is_derived() {
    let mut words = vec![MAGIC, 0x0001_0000, 0, 20, 0];
    // OpName 12 "PC"
    words.extend_from_slice(&[(3 << 16) | 5, 12, 0x0000_4350]);
    // OpTypeFloat 6 32; OpTypeVector 7 6 4
    words.extend_from_slice(&[(3 << 16) | 22, 6, 32]);
    words.extend_from_slice(&[(4 << 16) | 23, 7, 6, 4]);
    // OpTypePointer 13 PushConstant 7
    words.extend_from_slice(&[(4 << 16) | 32, 13, 9, 7]);
    let reflection = reflect(&words_to_bytes_le(&words)).unwrap();
    assert_eq!(reflection.shader.push_constants, vec![Type::Vector {
        element_count: 4,
        element_type: Box::new(Type::Float { width: 32 }),
    }]);
    let range = reflection.push_constant_range.unwrap();
    assert_eq!(range.offset, 0);
    assert_eq!(range.size, 16);
}
