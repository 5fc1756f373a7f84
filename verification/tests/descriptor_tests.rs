use spirv_reflect::descriptor_sets::{
    descriptor_array_count, descriptor_constructor, DescriptorArray, DescriptorDimensions,
    DescriptorKind,
};
use spirv_reflect::enums::{AccessQualifier, Dim, ImageFormat};
use spirv_reflect::types::{InterfaceBlock, Type};
use spirv_reflect::Error;

fn image(dim: Dim, sampled: Option<bool>, format: ImageFormat) -> Type {
    Type::Image {
        sampled_type: Box::new(Type::Float { width: 32 }),
        dim,
        depth: Some(false),
        arrayed: false,
        ms: false,
        sampled,
        format,
        access_qualifier: None::<AccessQualifier>,
    }
}

fn block_struct(kind: Option<InterfaceBlock>) -> Type {
    Type::Struct {
        name: "Data".to_string(),
        member_types: vec![Type::Float { width: 32 }],
        member_type_ids: vec![6],
        interface_block: kind,
    }
}

#[test]
fn buffer_block_classifies_as_storage_buffer() {
    let kind = descriptor_constructor(&block_struct(Some(InterfaceBlock::BufferBlock)), false);
    assert_eq!(kind, Ok(DescriptorKind::Buffer { dynamic: Some(false), storage: true }));
}

#[test]
fn block_classifies_as_uniform_buffer() {
    let kind = descriptor_constructor(&block_struct(Some(InterfaceBlock::Block)), false);
    assert_eq!(kind, Ok(DescriptorKind::Buffer { dynamic: Some(false), storage: false }));
}

#[test]
fn undecorated_struct_is_unsupported() {
    let kind = descriptor_constructor(&block_struct(None), false);
    assert_eq!(kind, Err(Error::UnsupportedDescriptorShape));
}

#[test]
fn subpass_input_with_known_format_is_invalid() {
    let t = image(Dim::SubpassData, Some(false), ImageFormat::Other(1));
    assert_eq!(descriptor_constructor(&t, false), Err(Error::InvalidImageConfiguration));
}

#[test]
fn subpass_input_with_sampled_flag_is_invalid() {
    let t = image(Dim::SubpassData, Some(true), ImageFormat::Unknown);
    assert_eq!(descriptor_constructor(&t, false), Err(Error::InvalidImageConfiguration));
}

#[test]
fn subpass_input_classifies_as_input_attachment() {
    let t = image(Dim::SubpassData, Some(false), ImageFormat::Unknown);
    assert_eq!(descriptor_constructor(&t, false), Ok(DescriptorKind::InputAttachment {
        multisampled: false,
        array_layers: DescriptorArray::NonArrayed,
    }));
}

#[test]
fn buffer_dimension_classifies_as_texel_buffer() {
    let t = image(Dim::Buffer, Some(false), ImageFormat::Unknown);
    assert_eq!(descriptor_constructor(&t, false), Ok(DescriptorKind::TexelBuffer {
        storage: true,
    }));
    let t = image(Dim::Buffer, Some(true), ImageFormat::Unknown);
    assert_eq!(descriptor_constructor(&t, false), Ok(DescriptorKind::TexelBuffer {
        storage: false,
    }));
}

#[test]
fn sampled_image_forces_combined_classification() {
    let t = Type::SampledImage {
        image_type: Box::new(image(Dim::Dim2D, Some(true), ImageFormat::Unknown)),
    };
    assert_eq!(descriptor_constructor(&t, false), Ok(DescriptorKind::CombinedImageSampler {
        sampled: true,
        dimensions: DescriptorDimensions::TwoDimensional,
        multisampled: false,
        array_layers: DescriptorArray::NonArrayed,
    }));
}

#[test]
fn storage_image_classifies_plainly() {
    let t = image(Dim::Dim3D, Some(false), ImageFormat::Unknown);
    assert_eq!(descriptor_constructor(&t, false), Ok(DescriptorKind::Image {
        sampled: false,
        dimensions: DescriptorDimensions::ThreeDimensional,
        multisampled: false,
        array_layers: DescriptorArray::NonArrayed,
    }));
}

#[test]
fn image_without_sampled_operand_is_invalid() {
    let t = image(Dim::Dim2D, None, ImageFormat::Unknown);
    assert_eq!(descriptor_constructor(&t, false), Err(Error::InvalidImageConfiguration));
}

#[test]
fn rectangle_images_are_unsupported() {
    let t = image(Dim::Rect, Some(true), ImageFormat::Unknown);
    assert_eq!(descriptor_constructor(&t, false), Err(Error::UnsupportedDescriptorShape));
}

#[test]
fn samplers_classify_as_samplers() {
    assert_eq!(descriptor_constructor(&Type::Sampler, false), Ok(DescriptorKind::Sampler));
}

#[test]
fn one_array_level_is_looked_through() {
    let arr = Type::Array { element_count: 4, element_type: Box::new(Type::Sampler) };
    assert_eq!(descriptor_constructor(&arr, false), Ok(DescriptorKind::Sampler));
    assert_eq!(descriptor_array_count(&arr), 4);
    assert_eq!(descriptor_array_count(&Type::Sampler), 1);
}

#[test]
fn nested_descriptor_arrays_are_unsupported() {
    let arr = Type::Array {
        element_count: 2,
        element_type: Box::new(Type::Array {
            element_count: 2,
            element_type: Box::new(Type::Sampler),
        }),
    };
    assert_eq!(descriptor_constructor(&arr, false), Err(Error::UnsupportedDescriptorShape));
}
