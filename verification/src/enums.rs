//! The closed sets of values that SPIR-V instructions carry as single words:
//! capabilities, decorations, storage classes, execution models and modes,
//! image dimensions, image formats and access qualifiers.
//!
//! Each enum keeps the named variants that reflection reads and folds every
//! other word into an `Other` variant carrying the raw word, so that decoding
//! never fails and unknown values survive a round trip through the tables.

use vstd::prelude::*;

verus! {

#[derive(Clone, Copy, Debug, PartialEq, Eq, Structural)]
pub enum Capability {
    Matrix,
    Shader,
    Geometry,
    Tessellation,
    Float64,
    Int64,
    Other(u32),
}

#[derive(Clone, Copy, Debug, PartialEq, Eq, Structural)]
pub enum Decoration {
    SpecId,
    Block,
    BufferBlock,
    RowMajor,
    ColMajor,
    ArrayStride,
    MatrixStride,
    BuiltIn,
    Location,
    Component,
    Binding,
    DescriptorSet,
    Offset,
    Other(u32),
}

#[derive(Clone, Copy, Debug, PartialEq, Eq, Structural)]
pub enum StorageClass {
    UniformConstant,
    Input,
    Uniform,
    Output,
    Workgroup,
    CrossWorkgroup,
    Private,
    Function,
    Generic,
    PushConstant,
    AtomicCounter,
    Image,
    StorageBuffer,
    Other(u32),
}

#[derive(Clone, Copy, Debug, PartialEq, Eq, Structural)]
pub enum ExecutionModel {
    Vertex,
    TessellationControl,
    TessellationEvaluation,
    Geometry,
    Fragment,
    GLCompute,
    Kernel,
    Other(u32),
}

#[derive(Clone, Copy, Debug, PartialEq, Eq, Structural)]
pub enum ExecutionMode {
    OriginUpperLeft,
    OriginLowerLeft,
    LocalSize,
    InputPoints,
    InputLines,
    InputLinesAdjacency,
    Triangles,
    InputTrianglesAdjacency,
    OutputVertices,
    Other(u32),
}

#[derive(Clone, Copy, Debug, PartialEq, Eq, Structural)]
pub enum Dim {
    Dim1D,
    Dim2D,
    Dim3D,
    Cube,
    Rect,
    Buffer,
    SubpassData,
    Other(u32),
}

#[derive(Clone, Copy, Debug, PartialEq, Eq, Structural)]
pub enum ImageFormat {
    Unknown,
    Other(u32),
}

#[derive(Clone, Copy, Debug, PartialEq, Eq, Structural)]
pub enum AccessQualifier {
    ReadOnly,
    WriteOnly,
    ReadWrite,
    Other(u32),
}

pub open spec fn capability_of_word(w: u32) -> Capability {
    if w == 0 {
        Capability::Matrix
    } else if w == 1 {
        Capability::Shader
    } else if w == 2 {
        Capability::Geometry
    } else if w == 3 {
        Capability::Tessellation
    } else if w == 10 {
        Capability::Float64
    } else if w == 11 {
        Capability::Int64
    } else {
        Capability::Other(w)
    }
}

pub fn capability_from_word(w: u32) -> (r: Capability)
    ensures
        r == capability_of_word(w),
{
    match w {
        0 => Capability::Matrix,
        1 => Capability::Shader,
        2 => Capability::Geometry,
        3 => Capability::Tessellation,
        10 => Capability::Float64,
        11 => Capability::Int64,
        _ => Capability::Other(w),
    }
}

pub open spec fn decoration_of_word(w: u32) -> Decoration {
    if w == 1 {
        Decoration::SpecId
    } else if w == 2 {
        Decoration::Block
    } else if w == 3 {
        Decoration::BufferBlock
    } else if w == 4 {
        Decoration::RowMajor
    } else if w == 5 {
        Decoration::ColMajor
    } else if w == 6 {
        Decoration::ArrayStride
    } else if w == 7 {
        Decoration::MatrixStride
    } else if w == 11 {
        Decoration::BuiltIn
    } else if w == 30 {
        Decoration::Location
    } else if w == 31 {
        Decoration::Component
    } else if w == 33 {
        Decoration::Binding
    } else if w == 34 {
        Decoration::DescriptorSet
    } else if w == 35 {
        Decoration::Offset
    } else {
        Decoration::Other(w)
    }
}

pub fn decoration_from_word(w: u32) -> (r: Decoration)
    ensures
        r == decoration_of_word(w),
{
    match w {
        1 => Decoration::SpecId,
        2 => Decoration::Block,
        3 => Decoration::BufferBlock,
        4 => Decoration::RowMajor,
        5 => Decoration::ColMajor,
        6 => Decoration::ArrayStride,
        7 => Decoration::MatrixStride,
        11 => Decoration::BuiltIn,
        30 => Decoration::Location,
        31 => Decoration::Component,
        33 => Decoration::Binding,
        34 => Decoration::DescriptorSet,
        35 => Decoration::Offset,
        _ => Decoration::Other(w),
    }
}

pub open spec fn storage_class_of_word(w: u32) -> StorageClass {
    if w == 0 {
        StorageClass::UniformConstant
    } else if w == 1 {
        StorageClass::Input
    } else if w == 2 {
        StorageClass::Uniform
    } else if w == 3 {
        StorageClass::Output
    } else if w == 4 {
        StorageClass::Workgroup
    } else if w == 5 {
        StorageClass::CrossWorkgroup
    } else if w == 6 {
        StorageClass::Private
    } else if w == 7 {
        StorageClass::Function
    } else if w == 8 {
        StorageClass::Generic
    } else if w == 9 {
        StorageClass::PushConstant
    } else if w == 10 {
        StorageClass::AtomicCounter
    } else if w == 11 {
        StorageClass::Image
    } else if w == 12 {
        StorageClass::StorageBuffer
    } else {
        StorageClass::Other(w)
    }
}

pub fn storage_class_from_word(w: u32) -> (r: StorageClass)
    ensures
        r == storage_class_of_word(w),
{
    match w {
        0 => StorageClass::UniformConstant,
        1 => StorageClass::Input,
        2 => StorageClass::Uniform,
        3 => StorageClass::Output,
        4 => StorageClass::Workgroup,
        5 => StorageClass::CrossWorkgroup,
        6 => StorageClass::Private,
        7 => StorageClass::Function,
        8 => StorageClass::Generic,
        9 => StorageClass::PushConstant,
        10 => StorageClass::AtomicCounter,
        11 => StorageClass::Image,
        12 => StorageClass::StorageBuffer,
        _ => StorageClass::Other(w),
    }
}

pub open spec fn execution_model_of_word(w: u32) -> ExecutionModel {
    if w == 0 {
        ExecutionModel::Vertex
    } else if w == 1 {
        ExecutionModel::TessellationControl
    } else if w == 2 {
        ExecutionModel::TessellationEvaluation
    } else if w == 3 {
        ExecutionModel::Geometry
    } else if w == 4 {
        ExecutionModel::Fragment
    } else if w == 5 {
        ExecutionModel::GLCompute
    } else if w == 6 {
        ExecutionModel::Kernel
    } else {
        ExecutionModel::Other(w)
    }
}

pub fn execution_model_from_word(w: u32) -> (r: ExecutionModel)
    ensures
        r == execution_model_of_word(w),
{
    match w {
        0 => ExecutionModel::Vertex,
        1 => ExecutionModel::TessellationControl,
        2 => ExecutionModel::TessellationEvaluation,
        3 => ExecutionModel::Geometry,
        4 => ExecutionModel::Fragment,
        5 => ExecutionModel::GLCompute,
        6 => ExecutionModel::Kernel,
        _ => ExecutionModel::Other(w),
    }
}

pub open spec fn execution_mode_of_word(w: u32) -> ExecutionMode {
    if w == 7 {
        ExecutionMode::OriginUpperLeft
    } else if w == 8 {
        ExecutionMode::OriginLowerLeft
    } else if w == 17 {
        ExecutionMode::LocalSize
    } else if w == 19 {
        ExecutionMode::InputPoints
    } else if w == 20 {
        ExecutionMode::InputLines
    } else if w == 21 {
        ExecutionMode::InputLinesAdjacency
    } else if w == 22 {
        ExecutionMode::Triangles
    } else if w == 23 {
        ExecutionMode::InputTrianglesAdjacency
    } else if w == 26 {
        ExecutionMode::OutputVertices
    } else {
        ExecutionMode::Other(w)
    }
}

pub fn execution_mode_from_word(w: u32) -> (r: ExecutionMode)
    ensures
        r == execution_mode_of_word(w),
{
    match w {
        7 => ExecutionMode::OriginUpperLeft,
        8 => ExecutionMode::OriginLowerLeft,
        17 => ExecutionMode::LocalSize,
        19 => ExecutionMode::InputPoints,
        20 => ExecutionMode::InputLines,
        21 => ExecutionMode::InputLinesAdjacency,
        22 => ExecutionMode::Triangles,
        23 => ExecutionMode::InputTrianglesAdjacency,
        26 => ExecutionMode::OutputVertices,
        _ => ExecutionMode::Other(w),
    }
}

pub open spec fn dim_of_word(w: u32) -> Dim {
    if w == 0 {
        Dim::Dim1D
    } else if w == 1 {
        Dim::Dim2D
    } else if w == 2 {
        Dim::Dim3D
    } else if w == 3 {
        Dim::Cube
    } else if w == 4 {
        Dim::Rect
    } else if w == 5 {
        Dim::Buffer
    } else if w == 6 {
        Dim::SubpassData
    } else {
        Dim::Other(w)
    }
}

pub fn dim_from_word(w: u32) -> (r: Dim)
    ensures
        r == dim_of_word(w),
{
    match w {
        0 => Dim::Dim1D,
        1 => Dim::Dim2D,
        2 => Dim::Dim3D,
        3 => Dim::Cube,
        4 => Dim::Rect,
        5 => Dim::Buffer,
        6 => Dim::SubpassData,
        _ => Dim::Other(w),
    }
}

pub open spec fn image_format_of_word(w: u32) -> ImageFormat {
    if w == 0 {
        ImageFormat::Unknown
    } else {
        ImageFormat::Other(w)
    }
}

pub fn image_format_from_word(w: u32) -> (r: ImageFormat)
    ensures
        r == image_format_of_word(w),
{
    if w == 0 {
        ImageFormat::Unknown
    } else {
        ImageFormat::Other(w)
    }
}

pub open spec fn access_qualifier_of_word(w: u32) -> AccessQualifier {
    if w == 0 {
        AccessQualifier::ReadOnly
    } else if w == 1 {
        AccessQualifier::WriteOnly
    } else if w == 2 {
        AccessQualifier::ReadWrite
    } else {
        AccessQualifier::Other(w)
    }
}

pub fn access_qualifier_from_word(w: u32) -> (r: AccessQualifier)
    ensures
        r == access_qualifier_of_word(w),
{
    match w {
        0 => AccessQualifier::ReadOnly,
        1 => AccessQualifier::WriteOnly,
        2 => AccessQualifier::ReadWrite,
        _ => AccessQualifier::Other(w),
    }
}

} // verus!
