//! Descriptor bindings: one record per module-scope variable that carries a
//! `DescriptorSet` decoration, and the classification of its pointee shape
//! into a descriptor kind.

use vstd::prelude::*;

use crate::enums::{Dim, ImageFormat};
use crate::types::{InterfaceBlock, Type, TypeView};
use crate::{Error, ErrorView};

verus! {

/// One shader-visible resource binding: the (set, binding) pair, the
/// variable's resolved pointee type, its name, and the pointer type's id.
#[derive(Debug, Clone, PartialEq, Eq)]
pub struct NewDescriptor {
    pub descriptor_set: u32,
    pub binding_point: u32,
    pub spirv_type: Type,
    pub name: String,
    pub type_id: u32,
}

pub struct NewDescriptorView {
    pub descriptor_set: u32,
    pub binding_point: u32,
    pub spirv_type: TypeView,
    pub name: Seq<char>,
    pub type_id: u32,
}

impl View for NewDescriptor {
    type V = NewDescriptorView;

    open spec fn view(&self) -> NewDescriptorView {
        NewDescriptorView {
            descriptor_set: self.descriptor_set,
            binding_point: self.binding_point,
            spirv_type: self.spirv_type@,
            name: self.name@,
            type_id: self.type_id,
        }
    }
}

/// How many image layers a descriptor exposes.
#[derive(Debug, Clone, Copy, PartialEq, Eq, Structural)]
pub enum DescriptorArray {
    NonArrayed,
    Arrayed,
}

/// The dimensionalities a sampled or storage image descriptor can have.
#[derive(Debug, Clone, Copy, PartialEq, Eq, Structural)]
pub enum DescriptorDimensions {
    OneDimensional,
    TwoDimensional,
    ThreeDimensional,
    Cube,
}

/// The descriptor kind a variable's pointee shape maps to.
#[derive(Debug, Clone, Copy, PartialEq, Eq, Structural)]
pub enum DescriptorKind {
    Buffer { dynamic: Option<bool>, storage: bool },
    InputAttachment { multisampled: bool, array_layers: DescriptorArray },
    TexelBuffer { storage: bool },
    CombinedImageSampler {
        sampled: bool,
        dimensions: DescriptorDimensions,
        multisampled: bool,
        array_layers: DescriptorArray,
    },
    Image {
        sampled: bool,
        dimensions: DescriptorDimensions,
        multisampled: bool,
        array_layers: DescriptorArray,
    },
    Sampler,
}

/// The descriptor kind a pointee shape classifies to, under the target
/// API's descriptor-set interface rules. A struct is a uniform or storage
/// buffer by its interface-block kind; a subpass-data image is an input
/// attachment and must carry an unknown format and an unsampled flag; a
/// buffer-dimensioned image is a texel buffer; other images are sampled or
/// storage images, combined with a sampler when reached through a sampled
/// image; a sampler is a sampler; one level of array is looked through.
/// Everything else is an `UnsupportedDescriptorShape`.
pub open spec fn spec_descriptor_kind(t: TypeView, force_combined: bool) -> Result<
    DescriptorKind,
    ErrorView,
>
    decreases t,
{
    match t {
        TypeView::Struct { interface_block, .. } => match interface_block {
            Some(ib) => Ok(
                DescriptorKind::Buffer {
                    dynamic: Some(false),
                    storage: ib == InterfaceBlock::BufferBlock,
                },
            ),
            None => Err(ErrorView::UnsupportedDescriptorShape),
        },
        TypeView::Image { dim, arrayed, ms, sampled, format, .. } => match sampled {
            None => Err(ErrorView::InvalidImageConfiguration),
            Some(sampled) => {
                let array_layers = if arrayed {
                    DescriptorArray::Arrayed
                } else {
                    DescriptorArray::NonArrayed
                };
                if dim == Dim::SubpassData {
                    if force_combined {
                        Err(ErrorView::InvalidImageConfiguration)
                    } else if format != ImageFormat::Unknown {
                        Err(ErrorView::InvalidImageConfiguration)
                    } else if sampled {
                        Err(ErrorView::InvalidImageConfiguration)
                    } else {
                        Ok(DescriptorKind::InputAttachment { multisampled: ms, array_layers })
                    }
                } else if dim == Dim::Buffer {
                    Ok(DescriptorKind::TexelBuffer { storage: !sampled })
                } else {
                    let dimensions = match dim {
                        Dim::Dim1D => Some(DescriptorDimensions::OneDimensional),
                        Dim::Dim2D => Some(DescriptorDimensions::TwoDimensional),
                        Dim::Dim3D => Some(DescriptorDimensions::ThreeDimensional),
                        Dim::Cube => Some(DescriptorDimensions::Cube),
                        _ => None,
                    };
                    match dimensions {
                        None => Err(ErrorView::UnsupportedDescriptorShape),
                        Some(dimensions) => if force_combined {
                            Ok(
                                DescriptorKind::CombinedImageSampler {
                                    sampled,
                                    dimensions,
                                    multisampled: ms,
                                    array_layers,
                                },
                            )
                        } else {
                            Ok(
                                DescriptorKind::Image {
                                    sampled,
                                    dimensions,
                                    multisampled: ms,
                                    array_layers,
                                },
                            )
                        },
                    }
                }
            },
        },
        TypeView::SampledImage { image_type } => spec_descriptor_kind(*image_type, true),
        TypeView::Sampler => Ok(DescriptorKind::Sampler),
        TypeView::Array { element_type, .. } => match *element_type {
            TypeView::Array { .. } => Err(ErrorView::UnsupportedDescriptorShape),
            _ => spec_descriptor_kind(*element_type, false),
        },
        _ => Err(ErrorView::UnsupportedDescriptorShape),
    }
}

/// Classifies a descriptor variable's pointee type into a descriptor kind.
pub fn descriptor_constructor(spirv_type: &Type, force_combined_image_sampled: bool) -> (r:
    Result<DescriptorKind, Error>)
    ensures
        match r {
            Ok(k) => spec_descriptor_kind(spirv_type.model(), force_combined_image_sampled)
                == Ok::<_, ErrorView>(k),
            Err(e) => spec_descriptor_kind(spirv_type.model(), force_combined_image_sampled)
                == Err::<DescriptorKind, _>(e@),
        },
    decreases spirv_type,
{
    match spirv_type {
        Type::Struct { interface_block, .. } => match interface_block {
            Some(ib) => Ok(
                DescriptorKind::Buffer {
                    dynamic: Some(false),
                    storage: *ib == InterfaceBlock::BufferBlock,
                },
            ),
            None => Err(Error::UnsupportedDescriptorShape),
        },
        Type::Image { dim, arrayed, ms, sampled, format, .. } => match sampled {
            None => Err(Error::InvalidImageConfiguration),
            Some(sampled) => {
                let array_layers = if *arrayed {
                    DescriptorArray::Arrayed
                } else {
                    DescriptorArray::NonArrayed
                };
                if *dim == Dim::SubpassData {
                    if force_combined_image_sampled {
                        Err(Error::InvalidImageConfiguration)
                    } else if *format != ImageFormat::Unknown {
                        Err(Error::InvalidImageConfiguration)
                    } else if *sampled {
                        Err(Error::InvalidImageConfiguration)
                    } else {
                        Ok(
                            DescriptorKind::InputAttachment {
                                multisampled: *ms,
                                array_layers,
                            },
                        )
                    }
                } else if *dim == Dim::Buffer {
                    Ok(DescriptorKind::TexelBuffer { storage: !*sampled })
                } else {
                    let dimensions = match dim {
                        Dim::Dim1D => Some(DescriptorDimensions::OneDimensional),
                        Dim::Dim2D => Some(DescriptorDimensions::TwoDimensional),
                        Dim::Dim3D => Some(DescriptorDimensions::ThreeDimensional),
                        Dim::Cube => Some(DescriptorDimensions::Cube),
                        _ => None,
                    };
                    match dimensions {
                        None => Err(Error::UnsupportedDescriptorShape),
                        Some(dimensions) => if force_combined_image_sampled {
                            Ok(
                                DescriptorKind::CombinedImageSampler {
                                    sampled: *sampled,
                                    dimensions,
                                    multisampled: *ms,
                                    array_layers,
                                },
                            )
                        } else {
                            Ok(
                                DescriptorKind::Image {
                                    sampled: *sampled,
                                    dimensions,
                                    multisampled: *ms,
                                    array_layers,
                                },
                            )
                        },
                    }
                }
            },
        },
        Type::SampledImage { image_type } => descriptor_constructor(image_type, true),
        Type::Sampler => Ok(DescriptorKind::Sampler),
        Type::Array { element_type, .. } => {
            proof {
                reveal_with_fuel(Type::model, 2);
            }
            match &**element_type {
                Type::Array { .. } => Err(Error::UnsupportedDescriptorShape),
                _ => descriptor_constructor(element_type, false),
            }
        },
        _ => Err(Error::UnsupportedDescriptorShape),
    }
}

/// A subpass input attachment must carry an unknown image format: an image
/// whose dimension is subpass data and whose format is anything else
/// always classifies to `InvalidImageConfiguration`, whichever way it is
/// reached.
pub proof fn lemma_subpass_format_invalid(t: TypeView, force_combined: bool)
    requires
        t matches TypeView::Image { dim: Dim::SubpassData, format, .. } && format
            != ImageFormat::Unknown,
    ensures
        spec_descriptor_kind(t, force_combined) == Err::<DescriptorKind, ErrorView>(
            ErrorView::InvalidImageConfiguration,
        ),
{
}

/// A subpass input attachment must be unsampled: an image whose dimension
/// is subpass data and whose sampled flag is set always classifies to
/// `InvalidImageConfiguration`.
pub proof fn lemma_subpass_sampled_invalid(t: TypeView, force_combined: bool)
    requires
        t matches TypeView::Image { dim: Dim::SubpassData, sampled: Some(true), .. },
    ensures
        spec_descriptor_kind(t, force_combined) == Err::<DescriptorKind, ErrorView>(
            ErrorView::InvalidImageConfiguration,
        ),
{
}

/// The number of descriptor array elements a pointee shape declares: an
/// array's element count, and one for everything else.
pub open spec fn spec_descriptor_array_count(t: TypeView) -> u64 {
    match t {
        TypeView::Array { element_count, .. } => element_count,
        _ => 1,
    }
}

/// The number of descriptor array elements of a pointee shape.
pub fn descriptor_array_count(spirv_type: &Type) -> (r: u64)
    ensures
        r == spec_descriptor_array_count(spirv_type.model()),
{
    if let Type::Array { element_count, .. } = spirv_type {
        *element_count
    } else {
        1
    }
}

/// Whether a descriptor is bound read-only; every descriptor is reported
/// read-only.
fn descriptor_read_only(_spirv_type: &Type) -> (r: bool)
    ensures
        r == true,
{
    true
}

/// One fully classified descriptor: where it binds and what kind it is.
#[derive(Debug, Clone, Copy, PartialEq, Eq, Structural)]
pub struct DescriptorDesc {
    pub set: u32,
    pub binding: u32,
    pub ty: DescriptorKind,
    pub array_count: u64,
    pub readonly: bool,
}

/// The classified descriptor list: each binding's kind, array count and
/// read-only flag, in the descriptor list's order.
pub open spec fn spec_descriptor_descs(ds: Seq<NewDescriptorView>) -> Result<
    Seq<DescriptorDesc>,
    ErrorView,
>
    decreases ds.len(),
{
    if ds.len() == 0 {
        Ok(Seq::empty())
    } else {
        let d = ds[0];
        match spec_descriptor_kind(d.spirv_type, false) {
            Err(e) => Err(e),
            Ok(k) => {
                let desc = DescriptorDesc {
                    set: d.descriptor_set,
                    binding: d.binding_point,
                    ty: k,
                    array_count: spec_descriptor_array_count(d.spirv_type),
                    readonly: true,
                };
                match spec_descriptor_descs(ds.drop_first()) {
                    Ok(rest) => Ok(seq![desc] + rest),
                    Err(e) => Err(e),
                }
            },
        }
    }
}

/// Classifies every descriptor of the list.
pub fn build_descriptor_descs(descriptors: &Vec<NewDescriptor>) -> (r: Result<
    Vec<DescriptorDesc>,
    Error,
>)
    ensures
        match r {
            Ok(v) => spec_descriptor_descs(descriptors@.map_values(|d: NewDescriptor| d@))
                == Ok::<_, ErrorView>(v@),
            Err(e) => spec_descriptor_descs(descriptors@.map_values(|d: NewDescriptor| d@))
                == Err::<Seq<DescriptorDesc>, _>(e@),
        },
{
    let ghost all = descriptors@.map_values(|d: NewDescriptor| d@);
    let mut acc: Vec<DescriptorDesc> = Vec::new();
    let mut i: usize = 0;
    proof {
        assert(all.skip(0) =~= all);
    }
    while i < descriptors.len()
        invariant
            i <= all.len(),
            all == descriptors@.map_values(|d: NewDescriptor| d@),
            match spec_descriptor_descs(all.skip(i as int)) {
                Ok(rest) => spec_descriptor_descs(all) == Ok::<_, ErrorView>(acc@ + rest),
                Err(e) => spec_descriptor_descs(all) == Err::<Seq<DescriptorDesc>, _>(e),
            },
        decreases all.len() - i,
    {
        let ghost pre = all.skip(i as int);
        let ghost acc_before = acc@;
        proof {
            assert(pre.drop_first() =~= all.skip(i + 1));
            assert(pre[0] == descriptors@[i as int]@);
        }
        let d = &descriptors[i];
        match descriptor_constructor(&d.spirv_type, false) {
            Err(e) => {
                return Err(e);
            },
            Ok(k) => {
                let desc = DescriptorDesc {
                    set: d.descriptor_set,
                    binding: d.binding_point,
                    ty: k,
                    array_count: descriptor_array_count(&d.spirv_type),
                    readonly: descriptor_read_only(&d.spirv_type),
                };
                acc.push(desc);
                proof {
                    if let Ok(rest) = spec_descriptor_descs(all.skip(i + 1)) {
                        assert(acc_before + (seq![desc] + rest) =~= acc@ + rest);
                    }
                }
            },
        }
        i = i + 1;
    }
    proof {
        assert(all.skip(all.len() as int) =~= Seq::<NewDescriptorView>::empty());
        if let Ok(rest) = spec_descriptor_descs(all.skip(all.len() as int)) {
            assert(acc@ + rest =~= acc@);
        }
    }
    Ok(acc)
}

/// How many descriptor sets the bindings span: one past the highest set
/// index in use, zero when there is none.
pub open spec fn spec_num_sets(ds: Seq<NewDescriptorView>) -> u64
    decreases ds.len(),
{
    if ds.len() == 0 {
        0
    } else {
        let rest = spec_num_sets(ds.drop_first());
        if ds[0].descriptor_set as u64 + 1 > rest {
            (ds[0].descriptor_set + 1) as u64
        } else {
            rest
        }
    }
}

/// Counts the descriptor sets the bindings span.
pub fn num_sets(descriptors: &Vec<NewDescriptor>) -> (r: u64)
    ensures
        r == spec_num_sets(descriptors@.map_values(|d: NewDescriptor| d@)),
{
    let ghost all = descriptors@.map_values(|d: NewDescriptor| d@);
    let mut n: u64 = 0;
    let mut i: usize = descriptors.len();
    proof {
        assert(all.skip(all.len() as int) =~= Seq::<NewDescriptorView>::empty());
    }
    while i > 0
        invariant
            i <= all.len(),
            all == descriptors@.map_values(|d: NewDescriptor| d@),
            n == spec_num_sets(all.skip(i as int)),
        decreases i,
    {
        i = i - 1;
        proof {
            assert(all.skip(i as int).drop_first() =~= all.skip(i + 1));
            assert(all.skip(i as int)[0] == descriptors@[i as int]@);
        }
        let set = descriptors[i].descriptor_set;
        if (set as u64) + 1 > n {
            n = (set as u64) + 1;
        }
    }
    proof {
        assert(all.skip(0) =~= all);
    }
    n
}

/// How many binding slots one set spans: one past the highest binding
/// index a descriptor of that set uses, zero when the set is empty.
pub open spec fn spec_num_bindings_in_set(ds: Seq<NewDescriptorView>, set: u32) -> u64
    decreases ds.len(),
{
    if ds.len() == 0 {
        0
    } else {
        let rest = spec_num_bindings_in_set(ds.drop_first(), set);
        if ds[0].descriptor_set == set && ds[0].binding_point as u64 + 1 > rest {
            (ds[0].binding_point + 1) as u64
        } else {
            rest
        }
    }
}

/// Counts the binding slots one descriptor set spans.
pub fn num_bindings_in_set(descriptors: &Vec<NewDescriptor>, set: u32) -> (r: u64)
    ensures
        r == spec_num_bindings_in_set(descriptors@.map_values(|d: NewDescriptor| d@), set),
{
    let ghost all = descriptors@.map_values(|d: NewDescriptor| d@);
    let mut n: u64 = 0;
    let mut i: usize = descriptors.len();
    proof {
        assert(all.skip(all.len() as int) =~= Seq::<NewDescriptorView>::empty());
    }
    while i > 0
        invariant
            i <= all.len(),
            all == descriptors@.map_values(|d: NewDescriptor| d@),
            n == spec_num_bindings_in_set(all.skip(i as int), set),
        decreases i,
    {
        i = i - 1;
        proof {
            assert(all.skip(i as int).drop_first() =~= all.skip(i + 1));
            assert(all.skip(i as int)[0] == descriptors@[i as int]@);
        }
        let d = &descriptors[i];
        if d.descriptor_set == set && (d.binding_point as u64) + 1 > n {
            n = (d.binding_point as u64) + 1;
        }
    }
    proof {
        assert(all.skip(0) =~= all);
    }
    n
}

} // verus!
