use spirv_reflect::entry_point::{
    write_entry_points, write_interface_structs, EntryPoint, InterfaceVariable,
};
use spirv_reflect::enums::{ExecutionModel, StorageClass};
use spirv_reflect::types::Type;
use spirv_reflect::Error;

fn vec_ty(n: u32) -> Type {
    Type::Vector {
        element_count: n,
        element_type: Box::new(Type::Float { width: 32 }),
    }
}

fn input_ptr(pointee: Type) -> Type {
    Type::Pointer { storage_class: StorageClass::Input, pointee_type: Box::new(pointee) }
}

fn var(name: &str, location: u32, ty: Type) -> InterfaceVariable {
    InterfaceVariable { name: name.to_string(), spirv_type: ty, location }
}

fn entry_point(model: ExecutionModel, inputs: Vec<InterfaceVariable>) -> EntryPoint {
    EntryPoint {
        execution_model: model,
        id: 4,
        name: "main".to_string(),
        execution_modes: vec![],
        inputs,
        outputs: vec![],
    }
}

#[test]
fn overlapping_locations_are_rejected() {
    // a two-slot attribute at location 0 collides with one at location 1
    let two_slot = input_ptr(Type::Array {
        element_count: 2,
        element_type: Box::new(vec_ty(4)),
    });
    let ep = entry_point(ExecutionModel::Vertex, vec![
        var("wide", 0, two_slot),
        var("narrow", 1, input_ptr(vec_ty(4))),
    ]);
    assert_eq!(
        write_entry_points(&vec![ep]),
        Err(Error::OverlappingInterfaceLocations {
            first: "wide".to_string(),
            second: "narrow".to_string(),
        })
    );
}

#[test]
fn equal_locations_are_rejected() {
    let ep = entry_point(ExecutionModel::Vertex, vec![
        var("a", 0, input_ptr(vec_ty(4))),
        var("b", 0, input_ptr(vec_ty(2))),
    ]);
    assert!(matches!(
        write_entry_points(&vec![ep]),
        Err(Error::OverlappingInterfaceLocations { .. })
    ));
}

#[test]
fn disjoint_locations_pass() {
    let two_slot = input_ptr(Type::Array {
        element_count: 2,
        element_type: Box::new(vec_ty(4)),
    });
    let ep = entry_point(ExecutionModel::Vertex, vec![
        var("wide", 0, two_slot),
        var("narrow", 2, input_ptr(vec_ty(4))),
    ]);
    let ifaces = write_entry_points(&vec![ep]).unwrap();
    assert_eq!(ifaces.len(), 1);
    assert_eq!(ifaces[0].inputs.len(), 2);
    assert_eq!(ifaces[0].inputs[0].occupied, 2);
    assert_eq!(ifaces[0].inputs[1].occupied, 1);
}

#[test]
fn geometry_inputs_strip_their_outer_array() {
    let wrapped = input_ptr(Type::Array {
        element_count: 3,
        element_type: Box::new(vec_ty(4)),
    });
    let ep = entry_point(ExecutionModel::Geometry, vec![var("pos", 0, wrapped)]);
    let ifaces = write_entry_points(&vec![ep]).unwrap();
    // the per-primitive array level is gone: one slot, a plain vec4 format
    assert_eq!(ifaces[0].inputs[0].occupied, 1);
    assert_eq!(ifaces[0].inputs[0].format, "R32G32B32A32Sfloat");
}

#[test]
fn geometry_inputs_must_be_arrays() {
    let ep = entry_point(ExecutionModel::Geometry, vec![var("pos", 0, input_ptr(vec_ty(4)))]);
    assert_eq!(write_entry_points(&vec![ep]), Err(Error::ArrayStripMismatch));
}

#[test]
fn tessellation_control_outputs_strip_their_outer_array() {
    let wrapped = Type::Pointer {
        storage_class: StorageClass::Output,
        pointee_type: Box::new(Type::Array {
            element_count: 4,
            element_type: Box::new(vec_ty(4)),
        }),
    };
    let ep = EntryPoint {
        execution_model: ExecutionModel::TessellationControl,
        id: 4,
        name: "main".to_string(),
        execution_modes: vec![],
        inputs: vec![],
        outputs: vec![var("out_pos", 0, wrapped)],
    };
    let ifaces = write_entry_points(&vec![ep]).unwrap();
    assert_eq!(ifaces[0].outputs[0].occupied, 1);
}

#[test]
fn vertex_inputs_keep_their_arrays() {
    let arr = input_ptr(Type::Array {
        element_count: 3,
        element_type: Box::new(vec_ty(4)),
    });
    let ep = entry_point(ExecutionModel::Vertex, vec![var("pos", 0, arr)]);
    let ifaces = write_entry_points(&vec![ep]).unwrap();
    assert_eq!(ifaces[0].inputs[0].occupied, 3);
}

#[test]
fn formatless_inputs_are_rejected() {
    let ep = entry_point(ExecutionModel::Vertex, vec![var("flag", 0, input_ptr(Type::Bool))]);
    assert_eq!(write_entry_points(&vec![ep]), Err(Error::UnsizedType));
}

#[test]
fn interface_structs_take_the_capitalized_name() {
    let ep = entry_point(ExecutionModel::Vertex, vec![var("pos", 0, input_ptr(vec_ty(4)))]);
    let structs = write_interface_structs(&vec![ep]).unwrap();
    assert_eq!(structs.len(), 2);
    assert_eq!(structs[0].name, "MainInput");
    assert_eq!(structs[0].elements.len(), 1);
    assert_eq!(structs[0].elements[0].name, "pos");
    assert_eq!(structs[1].name, "MainOutput");
    assert_eq!(structs[1].elements.len(), 0);
}
