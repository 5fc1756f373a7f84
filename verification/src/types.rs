//! The central recursive entity: a fully resolved SPIR-V type tree, the
//! demand-driven resolver that builds it from id-keyed incomplete
//! declarations, and the layout questions a resolved type answers (occupied
//! interface slots, wire format, host size and alignment).

use vstd::prelude::*;

use crate::enums::{AccessQualifier, Decoration, Dim, ImageFormat, StorageClass};
use crate::parse::{Instruction, InstructionView};
use crate::tables::{
    lookup_constant, lookup_decoration, lookup_name, spec_constants, DecorationEntry,
    DecorationEntryView,
};
use crate::text::{decimal_chars, u64_to_string};
use crate::{Error, ErrorView};
use vstd::string::StringExecFns;

verus! {

broadcast use {vstd::std_specs::vec::group_vec_axioms, vstd::seq::group_seq_axioms};

/// The struct qualifier telling a read-only uniform block from a read-write
/// storage block.
#[derive(Debug, Clone, Copy, PartialEq, Eq, Structural)]
pub enum InterfaceBlock {
    Block,
    BufferBlock,
}

/// A fully resolved type: every child is owned outright, so the tree can be
/// walked without any further id lookups.
#[derive(Debug, PartialEq, Eq)]
pub enum Type {
    Void,
    Opaque { name: String },
    Bool,
    Int { width: u32, signedness: bool },
    Float { width: u32 },
    Vector { element_count: u32, element_type: Box<Type> },
    Matrix { column_count: u32, column_type: Box<Type> },
    Array { element_count: u64, element_type: Box<Type> },
    RuntimeArray { element_type: Box<Type> },
    Struct {
        name: String,
        member_types: Vec<Type>,
        member_type_ids: Vec<u32>,
        interface_block: Option<InterfaceBlock>,
    },
    Pointer { storage_class: StorageClass, pointee_type: Box<Type> },
    SampledImage { image_type: Box<Type> },
    Sampler,
    Image {
        sampled_type: Box<Type>,
        dim: Dim,
        depth: Option<bool>,
        arrayed: bool,
        ms: bool,
        sampled: Option<bool>,
        format: ImageFormat,
        access_qualifier: Option<AccessQualifier>,
    },
}

/// The mathematical shadow of [`Type`].
pub enum TypeView {
    Void,
    Opaque { name: Seq<char> },
    Bool,
    Int { width: u32, signedness: bool },
    Float { width: u32 },
    Vector { element_count: u32, element_type: Box<TypeView> },
    Matrix { column_count: u32, column_type: Box<TypeView> },
    Array { element_count: u64, element_type: Box<TypeView> },
    RuntimeArray { element_type: Box<TypeView> },
    Struct {
        name: Seq<char>,
        member_types: Seq<TypeView>,
        member_type_ids: Seq<u32>,
        interface_block: Option<InterfaceBlock>,
    },
    Pointer { storage_class: StorageClass, pointee_type: Box<TypeView> },
    SampledImage { image_type: Box<TypeView> },
    Sampler,
    Image {
        sampled_type: Box<TypeView>,
        dim: Dim,
        depth: Option<bool>,
        arrayed: bool,
        ms: bool,
        sampled: Option<bool>,
        format: ImageFormat,
        access_qualifier: Option<AccessQualifier>,
    },
}

/// The models of a sequence of types, in order.
pub open spec fn type_models(s: Seq<Type>) -> Seq<TypeView>
    decreases s,
{
    if s.len() == 0 {
        Seq::empty()
    } else {
        seq![s[0].model()] + type_models(s.drop_first())
    }
}

pub proof fn lemma_type_models(s: Seq<Type>)
    ensures
        type_models(s).len() == s.len(),
        forall|i: int| 0 <= i < s.len() ==> type_models(s)[i] == #[trigger] s[i].model(),
    decreases s,
{
    if s.len() > 0 {
        lemma_type_models(s.drop_first());
        assert forall|i: int| 0 <= i < s.len() implies type_models(s)[i] == #[trigger] s[i].model()
        by {
            if i > 0 {
                assert(s.drop_first()[i - 1] == s[i]);
                assert(type_models(s)[i] == type_models(s.drop_first())[i - 1]);
            }
        }
    }
}

impl Type {
    /// What this type is, mathematically.
    pub open spec fn model(self) -> TypeView
        decreases self,
        via Self::model_decreases
    {
        match self {
            Type::Void => TypeView::Void,
            Type::Opaque { name } => TypeView::Opaque { name: name@ },
            Type::Bool => TypeView::Bool,
            Type::Int { width, signedness } => TypeView::Int { width, signedness },
            Type::Float { width } => TypeView::Float { width },
            Type::Vector { element_count, element_type } => TypeView::Vector {
                element_count,
                element_type: Box::new((*element_type).model()),
            },
            Type::Matrix { column_count, column_type } => TypeView::Matrix {
                column_count,
                column_type: Box::new((*column_type).model()),
            },
            Type::Array { element_count, element_type } => TypeView::Array {
                element_count,
                element_type: Box::new((*element_type).model()),
            },
            Type::RuntimeArray { element_type } => TypeView::RuntimeArray {
                element_type: Box::new((*element_type).model()),
            },
            Type::Struct { name, member_types, member_type_ids, interface_block } => {
                TypeView::Struct {
                    name: name@,
                    member_types: type_models(member_types@),
                    member_type_ids: member_type_ids@,
                    interface_block,
                }
            },
            Type::Pointer { storage_class, pointee_type } => TypeView::Pointer {
                storage_class,
                pointee_type: Box::new((*pointee_type).model()),
            },
            Type::SampledImage { image_type } => TypeView::SampledImage {
                image_type: Box::new((*image_type).model()),
            },
            Type::Sampler => TypeView::Sampler,
            Type::Image {
                sampled_type,
                dim,
                depth,
                arrayed,
                ms,
                sampled,
                format,
                access_qualifier,
            } => TypeView::Image {
                sampled_type: Box::new((*sampled_type).model()),
                dim,
                depth,
                arrayed,
                ms,
                sampled,
                format,
                access_qualifier,
            },
        }
    }

    #[via_fn]
    proof fn model_decreases(self) {
        if let Type::Struct { member_types, .. } = self {
            assert(decreases_to!(self => self->Struct_member_types));
            assert(decreases_to!(self->Struct_member_types => member_types@));
        }
    }
}

impl View for Type {
    type V = TypeView;

    open spec fn view(&self) -> TypeView {
        self.model()
    }
}

impl Clone for Type {
    /// A deep copy: the clone's model is the source value's.
    fn clone(&self) -> (r: Type)
        ensures
            r.model() == self.model(),
        decreases self,
    {
        match self {
            Type::Void => Type::Void,
            Type::Opaque { name } => Type::Opaque { name: name.clone() },
            Type::Bool => Type::Bool,
            Type::Int { width, signedness } => Type::Int {
                width: *width,
                signedness: *signedness,
            },
            Type::Float { width } => Type::Float { width: *width },
            Type::Vector { element_count, element_type } => Type::Vector {
                element_count: *element_count,
                element_type: Box::new((**element_type).clone()),
            },
            Type::Matrix { column_count, column_type } => Type::Matrix {
                column_count: *column_count,
                column_type: Box::new((**column_type).clone()),
            },
            Type::Array { element_count, element_type } => Type::Array {
                element_count: *element_count,
                element_type: Box::new((**element_type).clone()),
            },
            Type::RuntimeArray { element_type } => Type::RuntimeArray {
                element_type: Box::new((**element_type).clone()),
            },
            Type::Struct { name, member_types, member_type_ids, interface_block } => {
                let mut members: Vec<Type> = Vec::new();
                let mut i: usize = 0;
                while i < member_types.len()
                    invariant
                        i <= member_types@.len(),
                        members@.len() == i,
                        forall|j: int| 0 <= j < i
                            ==> members@[j].model() == member_types@[j].model(),
                    decreases member_types@.len() - i,
                {
                    proof {
                        let this = *self;
                        assert(decreases_to!(this => this->Struct_member_types));
                        assert(decreases_to!(this->Struct_member_types => member_types@));
                        assert(decreases_to!(member_types@ => member_types@[i as int]));
                    }
                    members.push(member_types[i].clone());
                    i = i + 1;
                }
                proof {
                    lemma_type_models(member_types@);
                    lemma_type_models(members@);
                    assert forall|j: int| 0 <= j < member_types@.len() implies type_models(
                        members@,
                    )[j] == type_models(member_types@)[j] by {
                        assert(members@[j].model() == member_types@[j].model());
                    }
                    assert(type_models(members@) =~= type_models(member_types@));
                }
                let ids = crate::parse::copy_range(member_type_ids, 0, member_type_ids.len());
                proof {
                    assert(ids@ =~= member_type_ids@);
                }
                Type::Struct {
                    name: name.clone(),
                    member_types: members,
                    member_type_ids: ids,
                    interface_block: *interface_block,
                }
            },
            Type::Pointer { storage_class, pointee_type } => Type::Pointer {
                storage_class: *storage_class,
                pointee_type: Box::new((**pointee_type).clone()),
            },
            Type::SampledImage { image_type } => Type::SampledImage {
                image_type: Box::new((**image_type).clone()),
            },
            Type::Sampler => Type::Sampler,
            Type::Image {
                sampled_type,
                dim,
                depth,
                arrayed,
                ms,
                sampled,
                format,
                access_qualifier,
            } => Type::Image {
                sampled_type: Box::new((**sampled_type).clone()),
                dim: *dim,
                depth: *depth,
                arrayed: *arrayed,
                ms: *ms,
                sampled: *sampled,
                format: *format,
                access_qualifier: *access_qualifier,
            },
        }
    }
}

/// Whether a scalar attribute is an unsigned integer, a signed integer or a
/// floating-point value: the third coordinate of the canonical format tag.
#[derive(Debug, Clone, Copy, PartialEq, Eq, Structural)]
pub enum NumericKind {
    Uint,
    Sint,
    Sfloat,
}

/// How many consecutive interface slots the type takes as a stage
/// input/output attribute: scalars and vectors take one, matrices and arrays
/// multiply their element's, pointers pass through, and aggregates have
/// none. A count beyond the machine's range has none either.
pub open spec fn spec_occupied(t: TypeView) -> Option<nat>
    decreases t,
{
    match t {
        TypeView::Bool => None,
        TypeView::Int { width, .. } => if width == 8 || width == 16 || width == 32 || width == 64 {
            Some(1 as nat)
        } else {
            None
        },
        TypeView::Float { width } => if width == 32 || width == 64 {
            Some(1 as nat)
        } else {
            None
        },
        TypeView::Vector { element_type, .. } => spec_occupied(*element_type),
        TypeView::Matrix { column_count, column_type } => match spec_occupied(*column_type) {
            Some(n) => if n * column_count <= usize::MAX {
                Some((n * column_count) as nat)
            } else {
                None
            },
            None => None,
        },
        TypeView::Array { element_count, element_type } => match spec_occupied(*element_type) {
            Some(n) => if n * element_count <= usize::MAX {
                Some((n * element_count) as nat)
            } else {
                None
            },
            None => None,
        },
        TypeView::Pointer { pointee_type, .. } => spec_occupied(*pointee_type),
        _ => None,
    }
}

/// A slot count is never beyond the machine's range.
pub proof fn lemma_occupied_bound(t: TypeView)
    ensures
        spec_occupied(t) matches Some(n) ==> n <= usize::MAX,
    decreases t,
{
    match t {
        TypeView::Vector { element_type, .. } => lemma_occupied_bound(*element_type),
        TypeView::Matrix { column_type, .. } => lemma_occupied_bound(*column_type),
        TypeView::Array { element_type, .. } => lemma_occupied_bound(*element_type),
        TypeView::Pointer { pointee_type, .. } => lemma_occupied_bound(*pointee_type),
        _ => {},
    }
}

/// `a * b` as a `usize`, or `None` when the product cannot be held.
fn checked_mul_usize(a: usize, b: u64) -> (r: Option<usize>)
    ensures
        match r {
            Some(p) => p == a * b,
            None => a * b > usize::MAX,
        },
{
    if b == 0 {
        Some(0)
    } else {
        let q = u64::MAX / b;
        if a as u64 <= q {
            proof {
                assert((a as u64) * b <= u64::MAX) by (nonlinear_arith)
                    requires
                        b > 0,
                        a as u64 <= u64::MAX as int / b as int,
                ;
            }
            let p = (a as u64) * b;
            if p <= usize::MAX as u64 {
                Some(p as usize)
            } else {
                None
            }
        } else {
            proof {
                assert(a as int * b as int > u64::MAX) by (nonlinear_arith)
                    requires
                        b > 0,
                        a as u64 > u64::MAX as int / b as int,
                ;
            }
            None
        }
    }
}

impl Type {
    /// The number of interface slots this type takes as a stage attribute.
    pub fn occupied_locations(&self) -> (r: Option<usize>)
        ensures
            match spec_occupied(self.model()) {
                None => r is None,
                Some(n) => r == Some(n as usize),
            },
        decreases self,
    {
        match self {
            Type::Bool => None,
            Type::Int { width, .. } => {
                if *width == 8 || *width == 16 || *width == 32 || *width == 64 {
                    Some(1)
                } else {
                    None
                }
            },
            Type::Float { width } => {
                if *width == 32 || *width == 64 {
                    Some(1)
                } else {
                    None
                }
            },
            Type::Vector { element_type, .. } => element_type.occupied_locations(),
            Type::Matrix { column_count, column_type } => {
                proof {
                    lemma_occupied_bound(column_type.model());
                }
                match column_type.occupied_locations() {
                    Some(n) => checked_mul_usize(n, *column_count as u64),
                    None => None,
                }
            },
            Type::Array { element_count, element_type } => {
                proof {
                    lemma_occupied_bound(element_type.model());
                }
                match element_type.occupied_locations() {
                    Some(n) => checked_mul_usize(n, *element_count),
                    None => None,
                }
            },
            Type::Pointer { pointee_type, .. } => pointee_type.occupied_locations(),
            _ => None,
        }
    }
}

/// The canonical format tag of an attribute type: component count, component
/// bit width, and numeric kind. Vectors need an element that itself reduces
/// to a one-slot 32-bit tag; matrices, arrays and pointers pass through.
pub open spec fn spec_format_tag(t: TypeView) -> Option<(u32, u32, NumericKind)>
    decreases t,
{
    match t {
        TypeView::Int { width, signedness } => if width == 8 || width == 16 || width == 32
            || width == 64 {
            Some((1u32, width, if signedness {
                NumericKind::Sint
            } else {
                NumericKind::Uint
            }))
        } else {
            None
        },
        TypeView::Float { width } => if width == 32 || width == 64 {
            Some((1u32, width, NumericKind::Sfloat))
        } else {
            None
        },
        TypeView::Vector { element_count, element_type } => {
            match spec_format_tag(*element_type) {
                Some((c, w, k)) => if c == 1 && w == 32 && spec_occupied(*element_type) == Some(
                    1 as nat,
                ) && 1 <= element_count <= 4 {
                    Some((element_count, 32u32, k))
                } else {
                    None
                },
                None => None,
            }
        },
        TypeView::Matrix { column_type, .. } => spec_format_tag(*column_type),
        TypeView::Array { element_type, .. } => spec_format_tag(*element_type),
        TypeView::Pointer { pointee_type, .. } => spec_format_tag(*pointee_type),
        _ => None,
    }
}

/// The format name the tag renders to, in the target API's spelling.
pub open spec fn spec_render_format(c: u32, w: u32, k: NumericKind) -> Option<Seq<char>> {
    if c == 1 {
        match k {
            NumericKind::Uint => if w == 8 {
                Some("R8Uint"@)
            } else if w == 16 {
                Some("R16Uint"@)
            } else if w == 32 {
                Some("R32Uint"@)
            } else if w == 64 {
                Some("R64Uint"@)
            } else {
                None
            },
            NumericKind::Sint => if w == 8 {
                Some("R8Sint"@)
            } else if w == 16 {
                Some("R16Sint"@)
            } else if w == 32 {
                Some("R32Sint"@)
            } else if w == 64 {
                Some("R64Sint"@)
            } else {
                None
            },
            NumericKind::Sfloat => if w == 32 {
                Some("R32Sfloat"@)
            } else if w == 64 {
                Some("R64Sfloat"@)
            } else {
                None
            },
        }
    } else if w == 32 {
        if c == 2 {
            match k {
                NumericKind::Uint => Some("R32G32Uint"@),
                NumericKind::Sint => Some("R32G32Sint"@),
                NumericKind::Sfloat => Some("R32G32Sfloat"@),
            }
        } else if c == 3 {
            match k {
                NumericKind::Uint => Some("R32G32B32Uint"@),
                NumericKind::Sint => Some("R32G32B32Sint"@),
                NumericKind::Sfloat => Some("R32G32B32Sfloat"@),
            }
        } else if c == 4 {
            match k {
                NumericKind::Uint => Some("R32G32B32A32Uint"@),
                NumericKind::Sint => Some("R32G32B32A32Sint"@),
                NumericKind::Sfloat => Some("R32G32B32A32Sfloat"@),
            }
        } else {
            None
        }
    } else {
        None
    }
}

/// The format name of an attribute type.
pub open spec fn spec_format(t: TypeView) -> Option<Seq<char>> {
    match spec_format_tag(t) {
        Some((c, w, k)) => spec_render_format(c, w, k),
        None => None,
    }
}

impl Type {
    /// The canonical (component count, bit width, numeric kind) tag of this
    /// type as a stage attribute, or `None` when it has none.
    pub fn format_tag(&self) -> (r: Option<(u32, u32, NumericKind)>)
        ensures
            r == spec_format_tag(self.model()),
        decreases self,
    {
        match self {
            Type::Int { width, signedness } => {
                if *width == 8 || *width == 16 || *width == 32 || *width == 64 {
                    Some((1, *width, if *signedness {
                        NumericKind::Sint
                    } else {
                        NumericKind::Uint
                    }))
                } else {
                    None
                }
            },
            Type::Float { width } => {
                if *width == 32 || *width == 64 {
                    Some((1, *width, NumericKind::Sfloat))
                } else {
                    None
                }
            },
            Type::Vector { element_count, element_type } => {
                proof {
                    lemma_occupied_bound(element_type.model());
                }
                match element_type.format_tag() {
                    Some((c, w, k)) => {
                        let occ = element_type.occupied_locations();
                        if c == 1 && w == 32 && occ == Some(1) && 1 <= *element_count
                            && *element_count <= 4 {
                            Some((*element_count, 32, k))
                        } else {
                            None
                        }
                    },
                    None => None,
                }
            },
            Type::Matrix { column_type, .. } => column_type.format_tag(),
            Type::Array { element_type, .. } => element_type.format_tag(),
            Type::Pointer { pointee_type, .. } => pointee_type.format_tag(),
            _ => None,
        }
    }

    /// The name of the format this type maps to as a stage attribute,
    /// in the target API's spelling, or `None` when it has none.
    pub fn format(&self) -> (r: Option<String>)
        ensures
            crate::opt_view(r) == spec_format(self.model()),
    {
        match self.format_tag() {
            Some((c, w, k)) => {
                if c == 1 {
                    match k {
                        NumericKind::Uint => {
                            if w == 8 {
                                Some("R8Uint".to_owned())
                            } else if w == 16 {
                                Some("R16Uint".to_owned())
                            } else if w == 32 {
                                Some("R32Uint".to_owned())
                            } else if w == 64 {
                                Some("R64Uint".to_owned())
                            } else {
                                None
                            }
                        },
                        NumericKind::Sint => {
                            if w == 8 {
                                Some("R8Sint".to_owned())
                            } else if w == 16 {
                                Some("R16Sint".to_owned())
                            } else if w == 32 {
                                Some("R32Sint".to_owned())
                            } else if w == 64 {
                                Some("R64Sint".to_owned())
                            } else {
                                None
                            }
                        },
                        NumericKind::Sfloat => {
                            if w == 32 {
                                Some("R32Sfloat".to_owned())
                            } else if w == 64 {
                                Some("R64Sfloat".to_owned())
                            } else {
                                None
                            }
                        },
                    }
                } else if w == 32 {
                    if c == 2 {
                        match k {
                            NumericKind::Uint => Some("R32G32Uint".to_owned()),
                            NumericKind::Sint => Some("R32G32Sint".to_owned()),
                            NumericKind::Sfloat => Some("R32G32Sfloat".to_owned()),
                        }
                    } else if c == 3 {
                        match k {
                            NumericKind::Uint => Some("R32G32B32Uint".to_owned()),
                            NumericKind::Sint => Some("R32G32B32Sint".to_owned()),
                            NumericKind::Sfloat => Some("R32G32B32Sfloat".to_owned()),
                        }
                    } else if c == 4 {
                        match k {
                            NumericKind::Uint => Some("R32G32B32A32Uint".to_owned()),
                            NumericKind::Sint => Some("R32G32B32A32Sint".to_owned()),
                            NumericKind::Sfloat => Some("R32G32B32A32Sfloat".to_owned()),
                        }
                    } else {
                        None
                    }
                } else {
                    None
                }
            },
            None => None,
        }
    }
}

/// The host-side shape a type maps to: the host language's type name, its
/// byte size where one exists, and its alignment.
#[derive(Debug, Clone, PartialEq, Eq)]
pub struct RustType {
    pub name: String,
    pub size: Option<usize>,
    pub alignment: usize,
}

pub struct RustTypeView {
    pub name: Seq<char>,
    pub size: Option<usize>,
    pub alignment: usize,
}

impl View for RustType {
    type V = RustTypeView;

    open spec fn view(&self) -> RustTypeView {
        RustTypeView { name: self.name@, size: self.size, alignment: self.alignment }
    }
}

/// The host shape of a scalar: its natural size doubles as its alignment.
pub open spec fn scalar_rust_type(name: Seq<char>, size: usize) -> RustTypeView {
    RustTypeView { name, size: Some(size), alignment: size }
}

/// The name `[inner; count]`.
pub open spec fn array_name(inner: Seq<char>, count: u64) -> Seq<char> {
    "["@ + inner + "; "@ + decimal_chars(count as nat) + "]"@
}

/// The host shape of a resolved type, where one exists. Scalars map to their
/// natural size and alignment; vectors, matrices and arrays multiply the
/// element's size by their count and inherit the element's alignment
/// unchanged, a simplified scheme kept deliberately; runtime arrays have no
/// size; structs have no computed host layout at all, and asking for one
/// must fail rather than guess. A size beyond the machine's range is `None`.
pub open spec fn spec_rust_type(t: TypeView) -> Option<RustTypeView>
    decreases t,
{
    match t {
        TypeView::Bool => Some(scalar_rust_type("u32"@, 4)),
        TypeView::Int { width, signedness } => if width == 8 {
            Some(scalar_rust_type(if signedness { "i8"@ } else { "u8"@ }, 1))
        } else if width == 16 {
            Some(scalar_rust_type(if signedness { "i16"@ } else { "u16"@ }, 2))
        } else if width == 32 {
            Some(scalar_rust_type("i32"@, 4))
        } else if width == 64 {
            Some(scalar_rust_type(if signedness { "i64"@ } else { "u64"@ }, 8))
        } else {
            None
        },
        TypeView::Float { width } => if width == 32 {
            Some(scalar_rust_type("f32"@, 4))
        } else if width == 64 {
            Some(scalar_rust_type("f64"@, 8))
        } else {
            None
        },
        TypeView::Vector { element_count, element_type } => composite_rust_type(
            spec_rust_type(*element_type),
            element_count as u64,
        ),
        TypeView::Matrix { column_count, column_type } => composite_rust_type(
            spec_rust_type(*column_type),
            column_count as u64,
        ),
        TypeView::Array { element_count, element_type } => composite_rust_type(
            spec_rust_type(*element_type),
            element_count,
        ),
        TypeView::RuntimeArray { element_type } => match spec_rust_type(*element_type) {
            Some(rt) => Some(RustTypeView {
                name: "["@ + rt.name + "]"@,
                size: None,
                alignment: rt.alignment,
            }),
            None => None,
        },
        _ => None,
    }
}

/// The host shape of `count` elements laid end to end: size multiplied,
/// alignment inherited.
pub open spec fn composite_rust_type(element: Option<RustTypeView>, count: u64) -> Option<
    RustTypeView,
> {
    match element {
        Some(rt) => Some(RustTypeView {
            name: array_name(rt.name, count),
            size: match rt.size {
                Some(s) => if s * count <= usize::MAX {
                    Some((s * count) as usize)
                } else {
                    None
                },
                None => None,
            },
            alignment: rt.alignment,
        }),
        None => None,
    }
}

/// Builds the name `[inner; count]`.
fn bracketed_name(inner: &String, count: u64) -> (r: String)
    ensures
        r@ == array_name(inner@, count),
{
    let n = u64_to_string(count);
    let r = String::from_str("[").concat(inner.as_str()).concat("; ").concat(n.as_str()).concat(
        "]",
    );
    proof {
        assert(r@ =~= array_name(inner@, count));
    }
    r
}

impl Type {
    /// The host shape this type maps to, if any.
    pub fn rust_type(&self) -> (r: Option<RustType>)
        ensures
            crate::opt_view(r) == spec_rust_type(self.model()),
        decreases self,
    {
        match self {
            Type::Bool => Some(RustType { name: String::from_str("u32"), size: Some(4), alignment: 4 }),
            Type::Int { width, signedness } => {
                if *width == 8 {
                    Some(RustType {
                        name: String::from_str(if *signedness { "i8" } else { "u8" }),
                        size: Some(1),
                        alignment: 1,
                    })
                } else if *width == 16 {
                    Some(RustType {
                        name: String::from_str(if *signedness { "i16" } else { "u16" }),
                        size: Some(2),
                        alignment: 2,
                    })
                } else if *width == 32 {
                    Some(RustType { name: String::from_str("i32"), size: Some(4), alignment: 4 })
                } else if *width == 64 {
                    Some(RustType {
                        name: String::from_str(if *signedness { "i64" } else { "u64" }),
                        size: Some(8),
                        alignment: 8,
                    })
                } else {
                    None
                }
            },
            Type::Float { width } => {
                if *width == 32 {
                    Some(RustType { name: String::from_str("f32"), size: Some(4), alignment: 4 })
                } else if *width == 64 {
                    Some(RustType { name: String::from_str("f64"), size: Some(8), alignment: 8 })
                } else {
                    None
                }
            },
            Type::Vector { element_count, element_type } => composite_of(
                element_type.rust_type(),
                *element_count as u64,
            ),
            Type::Matrix { column_count, column_type } => composite_of(
                column_type.rust_type(),
                *column_count as u64,
            ),
            Type::Array { element_count, element_type } => composite_of(
                element_type.rust_type(),
                *element_count,
            ),
            Type::RuntimeArray { element_type } => {
                match element_type.rust_type() {
                    Some(rt) => {
                        let name = String::from_str("[").concat(rt.name.as_str()).concat("]");
                        proof {
                            assert(name@ =~= "["@ + rt.name@ + "]"@);
                        }
                        Some(RustType { name, size: None, alignment: rt.alignment })
                    },
                    None => None,
                }
            },
            _ => None,
        }
    }
}

/// Lays `count` elements of the given host shape end to end.
fn composite_of(element: Option<RustType>, count: u64) -> (r: Option<RustType>)
    ensures
        crate::opt_view(r) == composite_rust_type(crate::opt_view(element), count),
{
    match element {
        Some(rt) => {
            let name = bracketed_name(&rt.name, count);
            let size = match rt.size {
                Some(s) => checked_mul_usize(s, count),
                None => None,
            };
            Some(RustType { name, size, alignment: rt.alignment })
        },
        None => None,
    }
}

/// A type declaration as the instruction stream gives it: children are
/// named by id, not owned, and the array length is already read from its
/// constant.
#[derive(Debug, PartialEq, Eq)]
pub enum IncompleteType {
    Void,
    Opaque { name: String },
    Bool,
    Int { width: u32, signedness: bool },
    Float { width: u32 },
    Vector { element_count: u32, element_type: u32 },
    Matrix { column_count: u32, column_type: u32 },
    Array { element_count: u64, element_type: u32 },
    RuntimeArray { element_type: u32 },
    Struct { name: String, member_types: Vec<u32>, interface_block: Option<InterfaceBlock> },
    Pointer { storage_class: StorageClass, pointee_type: u32 },
    SampledImage { image_type: u32 },
    Sampler,
    Image {
        sampled_type: u32,
        dim: Dim,
        depth: Option<bool>,
        arrayed: bool,
        ms: bool,
        sampled: Option<bool>,
        format: ImageFormat,
        access_qualifier: Option<AccessQualifier>,
    },
}

pub enum IncompleteTypeView {
    Void,
    Opaque { name: Seq<char> },
    Bool,
    Int { width: u32, signedness: bool },
    Float { width: u32 },
    Vector { element_count: u32, element_type: u32 },
    Matrix { column_count: u32, column_type: u32 },
    Array { element_count: u64, element_type: u32 },
    RuntimeArray { element_type: u32 },
    Struct { name: Seq<char>, member_types: Seq<u32>, interface_block: Option<InterfaceBlock> },
    Pointer { storage_class: StorageClass, pointee_type: u32 },
    SampledImage { image_type: u32 },
    Sampler,
    Image {
        sampled_type: u32,
        dim: Dim,
        depth: Option<bool>,
        arrayed: bool,
        ms: bool,
        sampled: Option<bool>,
        format: ImageFormat,
        access_qualifier: Option<AccessQualifier>,
    },
}

impl View for IncompleteType {
    type V = IncompleteTypeView;

    open spec fn view(&self) -> IncompleteTypeView {
        match self {
            IncompleteType::Void => IncompleteTypeView::Void,
            IncompleteType::Opaque { name } => IncompleteTypeView::Opaque { name: name@ },
            IncompleteType::Bool => IncompleteTypeView::Bool,
            IncompleteType::Int { width, signedness } => IncompleteTypeView::Int {
                width: *width,
                signedness: *signedness,
            },
            IncompleteType::Float { width } => IncompleteTypeView::Float { width: *width },
            IncompleteType::Vector { element_count, element_type } => IncompleteTypeView::Vector {
                element_count: *element_count,
                element_type: *element_type,
            },
            IncompleteType::Matrix { column_count, column_type } => IncompleteTypeView::Matrix {
                column_count: *column_count,
                column_type: *column_type,
            },
            IncompleteType::Array { element_count, element_type } => IncompleteTypeView::Array {
                element_count: *element_count,
                element_type: *element_type,
            },
            IncompleteType::RuntimeArray { element_type } => IncompleteTypeView::RuntimeArray {
                element_type: *element_type,
            },
            IncompleteType::Struct { name, member_types, interface_block } => {
                IncompleteTypeView::Struct {
                    name: name@,
                    member_types: member_types@,
                    interface_block: *interface_block,
                }
            },
            IncompleteType::Pointer { storage_class, pointee_type } => {
                IncompleteTypeView::Pointer {
                    storage_class: *storage_class,
                    pointee_type: *pointee_type,
                }
            },
            IncompleteType::SampledImage { image_type } => IncompleteTypeView::SampledImage {
                image_type: *image_type,
            },
            IncompleteType::Sampler => IncompleteTypeView::Sampler,
            IncompleteType::Image {
                sampled_type,
                dim,
                depth,
                arrayed,
                ms,
                sampled,
                format,
                access_qualifier,
            } => IncompleteTypeView::Image {
                sampled_type: *sampled_type,
                dim: *dim,
                depth: *depth,
                arrayed: *arrayed,
                ms: *ms,
                sampled: *sampled,
                format: *format,
                access_qualifier: *access_qualifier,
            },
        }
    }
}

/// The unsigned value a constant's little-endian words assemble to, least
/// significant word first; words beyond the 64th bit fall off the top.
pub open spec fn spec_constant_value(data: Seq<u32>) -> u64
    decreases data.len(),
{
    if data.len() == 0 {
        0
    } else {
        (spec_constant_value(data.drop_first()) << 32) | (data[0] as u64)
    }
}

/// Assembles a constant's words into its unsigned value.
pub fn constant_value(data: &Vec<u32>) -> (r: u64)
    ensures
        r == spec_constant_value(data@),
{
    let mut a: u64 = 0;
    let mut i: usize = data.len();
    proof {
        assert(data@.skip(data@.len() as int) =~= Seq::<u32>::empty());
    }
    while i > 0
        invariant
            i <= data@.len(),
            a == spec_constant_value(data@.skip(i as int)),
        decreases i,
    {
        i = i - 1;
        proof {
            assert(data@.skip(i as int).drop_first() =~= data@.skip(i + 1));
            assert(data@.skip(i as int)[0] == data@[i as int]);
        }
        a = (a << 32) | (data[i] as u64);
    }
    proof {
        assert(data@.skip(0) =~= data@);
    }
    a
}

/// The interface-block kind the decoration table gives a struct id.
pub open spec fn spec_interface_block(decs: Seq<DecorationEntryView>, id: u32) -> Option<
    InterfaceBlock,
> {
    if lookup_decoration(decs, id, Decoration::Block) is Some {
        Some(InterfaceBlock::Block)
    } else if lookup_decoration(decs, id, Decoration::BufferBlock) is Some {
        Some(InterfaceBlock::BufferBlock)
    } else {
        None
    }
}

/// What one instruction declares: `None` for a non-type instruction, an
/// error for a type whose array length constant or struct name is missing,
/// and the id with its incomplete declaration otherwise.
pub open spec fn spec_incomplete_decl(
    ins: InstructionView,
    names: Seq<(u32, Seq<char>)>,
    decs: Seq<DecorationEntryView>,
    consts: Seq<(u32, Seq<u32>)>,
) -> Option<Result<(u32, IncompleteTypeView), ErrorView>> {
    match ins {
        InstructionView::TypeVoid { result_id } => Some(
            Ok((result_id, IncompleteTypeView::Void)),
        ),
        InstructionView::TypeBool { result_id } => Some(
            Ok((result_id, IncompleteTypeView::Bool)),
        ),
        InstructionView::TypeInt { result_id, width, signedness } => Some(
            Ok((result_id, IncompleteTypeView::Int { width, signedness })),
        ),
        InstructionView::TypeFloat { result_id, width } => Some(
            Ok((result_id, IncompleteTypeView::Float { width })),
        ),
        InstructionView::TypeVector { result_id, component_id, count } => Some(
            Ok(
                (
                    result_id,
                    IncompleteTypeView::Vector {
                        element_count: count,
                        element_type: component_id,
                    },
                ),
            ),
        ),
        InstructionView::TypeMatrix { result_id, column_type_id, column_count } => Some(
            Ok(
                (
                    result_id,
                    IncompleteTypeView::Matrix { column_count, column_type: column_type_id },
                ),
            ),
        ),
        InstructionView::TypeArray { result_id, type_id, length_id } => match lookup_constant(
            consts,
            length_id,
        ) {
            Some(data) => Some(
                Ok(
                    (
                        result_id,
                        IncompleteTypeView::Array {
                            element_count: spec_constant_value(data),
                            element_type: type_id,
                        },
                    ),
                ),
            ),
            None => Some(Err(ErrorView::UnresolvedReference { id: length_id })),
        },
        InstructionView::TypeRuntimeArray { result_id, type_id } => Some(
            Ok((result_id, IncompleteTypeView::RuntimeArray { element_type: type_id })),
        ),
        InstructionView::TypeStruct { result_id, member_types } => match lookup_name(
            names,
            result_id,
        ) {
            Some(name) => Some(
                Ok(
                    (
                        result_id,
                        IncompleteTypeView::Struct {
                            name,
                            member_types,
                            interface_block: spec_interface_block(decs, result_id),
                        },
                    ),
                ),
            ),
            None => Some(Err(ErrorView::UnresolvedReference { id: result_id })),
        },
        InstructionView::TypeOpaque { result_id, name } => Some(
            Ok((result_id, IncompleteTypeView::Opaque { name })),
        ),
        InstructionView::TypePointer { result_id, storage_class, type_id } => Some(
            Ok(
                (
                    result_id,
                    IncompleteTypeView::Pointer { storage_class, pointee_type: type_id },
                ),
            ),
        ),
        InstructionView::TypeSampledImage { result_id, image_type_id } => Some(
            Ok((result_id, IncompleteTypeView::SampledImage { image_type: image_type_id })),
        ),
        InstructionView::TypeSampler { result_id } => Some(
            Ok((result_id, IncompleteTypeView::Sampler)),
        ),
        InstructionView::TypeImage {
            result_id,
            sampled_type_id,
            dim,
            depth,
            arrayed,
            ms,
            sampled,
            format,
            access,
        } => Some(
            Ok(
                (
                    result_id,
                    IncompleteTypeView::Image {
                        sampled_type: sampled_type_id,
                        dim,
                        depth,
                        arrayed,
                        ms,
                        sampled,
                        format,
                        access_qualifier: access,
                    },
                ),
            ),
        ),
        _ => None,
    }
}

/// Whether an id already has an incomplete declaration.
pub open spec fn has_incomplete(acc: Seq<(u32, IncompleteTypeView)>, id: u32) -> bool {
    exists|j: int| 0 <= j < acc.len() && acc[j].0 == id
}

/// The incomplete type declarations of the module, in document order; a
/// second declaration of an id is a `DuplicateDeclaration` error.
pub open spec fn spec_incomplete_types(
    instrs: Seq<InstructionView>,
    names: Seq<(u32, Seq<char>)>,
    decs: Seq<DecorationEntryView>,
    consts: Seq<(u32, Seq<u32>)>,
    acc: Seq<(u32, IncompleteTypeView)>,
) -> Result<Seq<(u32, IncompleteTypeView)>, ErrorView>
    decreases instrs.len(),
{
    if instrs.len() == 0 {
        Ok(acc)
    } else {
        match spec_incomplete_decl(instrs[0], names, decs, consts) {
            None => spec_incomplete_types(instrs.drop_first(), names, decs, consts, acc),
            Some(Err(e)) => Err(e),
            Some(Ok((id, d))) => if has_incomplete(acc, id) {
                Err(ErrorView::DuplicateDeclaration { id })
            } else {
                spec_incomplete_types(
                    instrs.drop_first(),
                    names,
                    decs,
                    consts,
                    acc.push((id, d)),
                )
            },
        }
    }
}

/// Reads the declaration one instruction makes, if it is a type instruction.
fn incomplete_decl(
    ins: &Instruction,
    names: &Vec<(u32, String)>,
    decorations: &Vec<DecorationEntry>,
    constants: &Vec<(u32, Vec<u32>)>,
) -> (r: Option<Result<(u32, IncompleteType), Error>>)
    ensures
        match r {
            None => spec_incomplete_decl(
                ins@,
                names@.map_values(|p: (u32, String)| p@),
                decorations@.map_values(|e: DecorationEntry| e@),
                constants@.map_values(|p: (u32, Vec<u32>)| p@),
            ) is None,
            Some(Ok((id, d))) => spec_incomplete_decl(
                ins@,
                names@.map_values(|p: (u32, String)| p@),
                decorations@.map_values(|e: DecorationEntry| e@),
                constants@.map_values(|p: (u32, Vec<u32>)| p@),
            ) == Some(Ok::<_, ErrorView>((id, d@))),
            Some(Err(e)) => spec_incomplete_decl(
                ins@,
                names@.map_values(|p: (u32, String)| p@),
                decorations@.map_values(|e: DecorationEntry| e@),
                constants@.map_values(|p: (u32, Vec<u32>)| p@),
            ) == Some(Err::<(u32, IncompleteTypeView), _>(e@)),
        },
{
    match ins {
        Instruction::TypeVoid { result_id } => Some(Ok((*result_id, IncompleteType::Void))),
        Instruction::TypeBool { result_id } => Some(Ok((*result_id, IncompleteType::Bool))),
        Instruction::TypeInt { result_id, width, signedness } => Some(
            Ok((*result_id, IncompleteType::Int { width: *width, signedness: *signedness })),
        ),
        Instruction::TypeFloat { result_id, width } => Some(
            Ok((*result_id, IncompleteType::Float { width: *width })),
        ),
        Instruction::TypeVector { result_id, component_id, count } => Some(
            Ok(
                (
                    *result_id,
                    IncompleteType::Vector { element_count: *count, element_type: *component_id },
                ),
            ),
        ),
        Instruction::TypeMatrix { result_id, column_type_id, column_count } => Some(
            Ok(
                (
                    *result_id,
                    IncompleteType::Matrix {
                        column_count: *column_count,
                        column_type: *column_type_id,
                    },
                ),
            ),
        ),
        Instruction::TypeArray { result_id, type_id, length_id } => {
            match crate::tables::constant_of(constants, *length_id) {
                Some(data) => Some(
                    Ok(
                        (
                            *result_id,
                            IncompleteType::Array {
                                element_count: constant_value(&data),
                                element_type: *type_id,
                            },
                        ),
                    ),
                ),
                None => Some(Err(Error::UnresolvedReference { id: *length_id })),
            }
        },
        Instruction::TypeRuntimeArray { result_id, type_id } => Some(
            Ok((*result_id, IncompleteType::RuntimeArray { element_type: *type_id })),
        ),
        Instruction::TypeStruct { result_id, member_types } => {
            match crate::tables::name_of(names, *result_id) {
                Some(name) => {
                    let block = crate::tables::decoration_of(
                        decorations,
                        *result_id,
                        Decoration::Block,
                    );
                    let interface_block = if block.is_some() {
                        Some(InterfaceBlock::Block)
                    } else {
                        let buffer_block = crate::tables::decoration_of(
                            decorations,
                            *result_id,
                            Decoration::BufferBlock,
                        );
                        if buffer_block.is_some() {
                            Some(InterfaceBlock::BufferBlock)
                        } else {
                            None
                        }
                    };
                    let members = crate::parse::copy_range(member_types, 0, member_types.len());
                    proof {
                        assert(members@ =~= member_types@);
                    }
                    Some(
                        Ok(
                            (
                                *result_id,
                                IncompleteType::Struct {
                                    name,
                                    member_types: members,
                                    interface_block,
                                },
                            ),
                        ),
                    )
                },
                None => Some(Err(Error::UnresolvedReference { id: *result_id })),
            }
        },
        Instruction::TypeOpaque { result_id, name } => Some(
            Ok((*result_id, IncompleteType::Opaque { name: name.clone() })),
        ),
        Instruction::TypePointer { result_id, storage_class, type_id } => Some(
            Ok(
                (
                    *result_id,
                    IncompleteType::Pointer {
                        storage_class: *storage_class,
                        pointee_type: *type_id,
                    },
                ),
            ),
        ),
        Instruction::TypeSampledImage { result_id, image_type_id } => Some(
            Ok((*result_id, IncompleteType::SampledImage { image_type: *image_type_id })),
        ),
        Instruction::TypeSampler { result_id } => Some(
            Ok((*result_id, IncompleteType::Sampler)),
        ),
        Instruction::TypeImage {
            result_id,
            sampled_type_id,
            dim,
            depth,
            arrayed,
            ms,
            sampled,
            format,
            access,
        } => Some(
            Ok(
                (
                    *result_id,
                    IncompleteType::Image {
                        sampled_type: *sampled_type_id,
                        dim: *dim,
                        depth: *depth,
                        arrayed: *arrayed,
                        ms: *ms,
                        sampled: *sampled,
                        format: *format,
                        access_qualifier: *access,
                    },
                ),
            ),
        ),
        _ => None,
    }
}

fn incomplete_seen(acc: &Vec<(u32, IncompleteType)>, id: u32) -> (r: bool)
    ensures
        r == has_incomplete(acc@.map_values(|p: (u32, IncompleteType)| p@), id),
{
    let ghost model = acc@.map_values(|p: (u32, IncompleteType)| p@);
    let mut i: usize = 0;
    while i < acc.len()
        invariant
            i <= acc@.len(),
            forall|j: int| 0 <= j < i ==> model[j].0 != id,
        decreases acc@.len() - i,
    {
        if acc[i].0 == id {
            proof {
                assert(model[i as int].0 == id);
            }
            return true;
        }
        i = i + 1;
    }
    false
}

/// Collects the incomplete type declarations of the module, in order,
/// failing on a duplicate declaration, a missing array-length constant or
/// an unnamed struct.
pub fn build_incomplete_types(
    instructions: &Vec<Instruction>,
    names: &Vec<(u32, String)>,
    decorations: &Vec<DecorationEntry>,
    constants: &Vec<(u32, Vec<u32>)>,
) -> (r: Result<Vec<(u32, IncompleteType)>, Error>)
    ensures
        match r {
            Ok(v) => spec_incomplete_types(
                instructions@.map_values(|ins: Instruction| ins@),
                names@.map_values(|p: (u32, String)| p@),
                decorations@.map_values(|e: DecorationEntry| e@),
                constants@.map_values(|p: (u32, Vec<u32>)| p@),
                Seq::empty(),
            ) == Ok::<_, ErrorView>(v@.map_values(|p: (u32, IncompleteType)| p@)),
            Err(e) => spec_incomplete_types(
                instructions@.map_values(|ins: Instruction| ins@),
                names@.map_values(|p: (u32, String)| p@),
                decorations@.map_values(|e: DecorationEntry| e@),
                constants@.map_values(|p: (u32, Vec<u32>)| p@),
                Seq::empty(),
            ) == Err::<Seq<(u32, IncompleteTypeView)>, _>(e@),
        },
{
    let ghost all = instructions@.map_values(|ins: Instruction| ins@);
    let ghost names_m = names@.map_values(|p: (u32, String)| p@);
    let ghost decs_m = decorations@.map_values(|e: DecorationEntry| e@);
    let ghost consts_m = constants@.map_values(|p: (u32, Vec<u32>)| p@);
    let mut acc: Vec<(u32, IncompleteType)> = Vec::new();
    let mut i: usize = 0;
    proof {
        assert(all.skip(0) =~= all);
        assert(acc@.map_values(|p: (u32, IncompleteType)| p@) =~= Seq::<
            (u32, IncompleteTypeView),
        >::empty());
    }
    while i < instructions.len()
        invariant
            i <= instructions@.len(),
            spec_incomplete_types(all, names_m, decs_m, consts_m, Seq::empty())
                == spec_incomplete_types(
                all.skip(i as int),
                names_m,
                decs_m,
                consts_m,
                acc@.map_values(|p: (u32, IncompleteType)| p@),
            ),
        decreases instructions@.len() - i,
    {
        let ghost pre = all.skip(i as int);
        let ghost acc_model = acc@.map_values(|p: (u32, IncompleteType)| p@);
        proof {
            assert(pre.drop_first() =~= all.skip(i + 1));
            assert(pre[0] == instructions@[i as int]@);
        }
        match incomplete_decl(&instructions[i], names, decorations, constants) {
            None => {},
            Some(Err(e)) => {
                return Err(e);
            },
            Some(Ok((id, d))) => {
                if incomplete_seen(&acc, id) {
                    return Err(Error::DuplicateDeclaration { id });
                }
                let ghost dm = d@;
                acc.push((id, d));
                proof {
                    assert(acc@.map_values(|p: (u32, IncompleteType)| p@) =~= acc_model.push(
                        (id, dm),
                    ));
                }
            },
        }
        i = i + 1;
    }
    proof {
        assert(all.skip(instructions@.len() as int) =~= Seq::<InstructionView>::empty());
    }
    Ok(acc)
}

/// The incomplete declaration recorded for `id`, if any; ids are unique.
pub open spec fn lookup_incomplete(inc: Seq<(u32, IncompleteTypeView)>, id: u32) -> Option<
    IncompleteTypeView,
>
    decreases inc.len(),
{
    if inc.len() == 0 {
        None
    } else if inc[0].0 == id {
        Some(inc[0].1)
    } else {
        lookup_incomplete(inc.drop_first(), id)
    }
}

/// What resolving `id` yields. `visiting` holds the ids already being
/// resolved on the way here: meeting one again is a genuine cycle and fails
/// with `UnresolvedReference`, as does an id with no declaration. `fuel`
/// only bounds the recursion for the termination checker; with the fuel the
/// callers pass, the visiting check always fires before the fuel runs out.
pub open spec fn spec_resolve_id(
    inc: Seq<(u32, IncompleteTypeView)>,
    visiting: Seq<u32>,
    id: u32,
    fuel: nat,
) -> Result<TypeView, ErrorView>
    decreases fuel, 0int,
{
    if visiting.contains(id) {
        Err(ErrorView::UnresolvedReference { id })
    } else {
        match lookup_incomplete(inc, id) {
            None => Err(ErrorView::UnresolvedReference { id }),
            Some(d) => if fuel == 0 {
                Err(ErrorView::UnresolvedReference { id })
            } else {
                let vis = visiting.push(id);
                match d {
                    IncompleteTypeView::Void => Ok(TypeView::Void),
                    IncompleteTypeView::Opaque { name } => Ok(TypeView::Opaque { name }),
                    IncompleteTypeView::Bool => Ok(TypeView::Bool),
                    IncompleteTypeView::Int { width, signedness } => Ok(
                        TypeView::Int { width, signedness },
                    ),
                    IncompleteTypeView::Float { width } => Ok(TypeView::Float { width }),
                    IncompleteTypeView::Vector { element_count, element_type } => {
                        match spec_resolve_id(inc, vis, element_type, (fuel - 1) as nat) {
                            Ok(t) => Ok(
                                TypeView::Vector { element_count, element_type: Box::new(t) },
                            ),
                            Err(e) => Err(e),
                        }
                    },
                    IncompleteTypeView::Matrix { column_count, column_type } => {
                        match spec_resolve_id(inc, vis, column_type, (fuel - 1) as nat) {
                            Ok(t) => Ok(
                                TypeView::Matrix { column_count, column_type: Box::new(t) },
                            ),
                            Err(e) => Err(e),
                        }
                    },
                    IncompleteTypeView::Array { element_count, element_type } => {
                        match spec_resolve_id(inc, vis, element_type, (fuel - 1) as nat) {
                            Ok(t) => Ok(
                                TypeView::Array { element_count, element_type: Box::new(t) },
                            ),
                            Err(e) => Err(e),
                        }
                    },
                    IncompleteTypeView::RuntimeArray { element_type } => {
                        match spec_resolve_id(inc, vis, element_type, (fuel - 1) as nat) {
                            Ok(t) => Ok(TypeView::RuntimeArray { element_type: Box::new(t) }),
                            Err(e) => Err(e),
                        }
                    },
                    IncompleteTypeView::Struct { name, member_types, interface_block } => {
                        match spec_resolve_members(inc, vis, member_types, (fuel - 1) as nat) {
                            Ok(ts) => Ok(
                                TypeView::Struct {
                                    name,
                                    member_types: ts,
                                    member_type_ids: member_types,
                                    interface_block,
                                },
                            ),
                            Err(e) => Err(e),
                        }
                    },
                    IncompleteTypeView::Pointer { storage_class, pointee_type } => {
                        match spec_resolve_id(inc, vis, pointee_type, (fuel - 1) as nat) {
                            Ok(t) => Ok(
                                TypeView::Pointer { storage_class, pointee_type: Box::new(t) },
                            ),
                            Err(e) => Err(e),
                        }
                    },
                    IncompleteTypeView::SampledImage { image_type } => {
                        match spec_resolve_id(inc, vis, image_type, (fuel - 1) as nat) {
                            Ok(t) => Ok(TypeView::SampledImage { image_type: Box::new(t) }),
                            Err(e) => Err(e),
                        }
                    },
                    IncompleteTypeView::Sampler => Ok(TypeView::Sampler),
                    IncompleteTypeView::Image {
                        sampled_type,
                        dim,
                        depth,
                        arrayed,
                        ms,
                        sampled,
                        format,
                        access_qualifier,
                    } => match spec_resolve_id(inc, vis, sampled_type, (fuel - 1) as nat) {
                        Ok(t) => Ok(
                            TypeView::Image {
                                sampled_type: Box::new(t),
                                dim,
                                depth,
                                arrayed,
                                ms,
                                sampled,
                                format,
                                access_qualifier,
                            },
                        ),
                        Err(e) => Err(e),
                    },
                }
            },
        }
    }
}

/// Resolves a struct's member ids in order; the first failure wins.
pub open spec fn spec_resolve_members(
    inc: Seq<(u32, IncompleteTypeView)>,
    visiting: Seq<u32>,
    members: Seq<u32>,
    fuel: nat,
) -> Result<Seq<TypeView>, ErrorView>
    decreases fuel, members.len() + 1,
{
    if members.len() == 0 {
        Ok(Seq::empty())
    } else {
        match spec_resolve_id(inc, visiting, members[0], fuel) {
            Err(e) => Err(e),
            Ok(t) => match spec_resolve_members(inc, visiting, members.drop_first(), fuel) {
                Ok(rest) => Ok(seq![t] + rest),
                Err(e) => Err(e),
            },
        }
    }
}

fn id_visited(visiting: &Vec<u32>, id: u32) -> (r: bool)
    ensures
        r == visiting@.contains(id),
{
    let mut i: usize = 0;
    while i < visiting.len()
        invariant
            i <= visiting@.len(),
            forall|j: int| 0 <= j < i ==> visiting@[j] != id,
        decreases visiting@.len() - i,
    {
        if visiting[i] == id {
            return true;
        }
        i = i + 1;
    }
    false
}

fn find_incomplete(inc: &Vec<(u32, IncompleteType)>, id: u32) -> (r: Option<usize>)
    ensures
        match r {
            Some(k) => k < inc@.len() && inc@[k as int].0 == id && lookup_incomplete(
                inc@.map_values(|p: (u32, IncompleteType)| p@),
                id,
            ) == Some(inc@[k as int].1@),
            None => lookup_incomplete(inc@.map_values(|p: (u32, IncompleteType)| p@), id)
                is None,
        },
{
    let ghost model = inc@.map_values(|p: (u32, IncompleteType)| p@);
    let mut i: usize = 0;
    proof {
        assert(model.skip(0) =~= model);
    }
    while i < inc.len()
        invariant
            i <= inc@.len(),
            lookup_incomplete(model, id) == lookup_incomplete(model.skip(i as int), id),
        decreases inc@.len() - i,
    {
        proof {
            assert(model.skip(i as int).drop_first() =~= model.skip(i + 1));
        }
        if inc[i].0 == id {
            return Some(i);
        }
        i = i + 1;
    }
    proof {
        assert(model.skip(inc@.len() as int) =~= Seq::<(u32, IncompleteTypeView)>::empty());
    }
    None
}

fn extended_visiting(visiting: &Vec<u32>, id: u32) -> (r: Vec<u32>)
    ensures
        r@ == visiting@.push(id),
{
    let mut r = crate::parse::copy_range(visiting, 0, visiting.len());
    proof {
        assert(r@ =~= visiting@);
    }
    r.push(id);
    r
}

/// Resolves one id against the incomplete declarations, demand-driven.
pub fn resolve_id(
    inc: &Vec<(u32, IncompleteType)>,
    visiting: &Vec<u32>,
    id: u32,
    fuel: usize,
) -> (r: Result<Type, Error>)
    ensures
        match r {
            Ok(t) => spec_resolve_id(
                inc@.map_values(|p: (u32, IncompleteType)| p@),
                visiting@,
                id,
                fuel as nat,
            ) == Ok::<_, ErrorView>(t.model()),
            Err(e) => spec_resolve_id(
                inc@.map_values(|p: (u32, IncompleteType)| p@),
                visiting@,
                id,
                fuel as nat,
            ) == Err::<TypeView, _>(e@),
        },
    decreases fuel, 0int,
{
    let ghost inc_m = inc@.map_values(|p: (u32, IncompleteType)| p@);
    if id_visited(visiting, id) {
        return Err(Error::UnresolvedReference { id });
    }
    let k = match find_incomplete(inc, id) {
        None => {
            return Err(Error::UnresolvedReference { id });
        },
        Some(k) => k,
    };
    if fuel == 0 {
        return Err(Error::UnresolvedReference { id });
    }
    let vis = extended_visiting(visiting, id);
    match &inc[k].1 {
        IncompleteType::Void => Ok(Type::Void),
        IncompleteType::Opaque { name } => Ok(Type::Opaque { name: name.clone() }),
        IncompleteType::Bool => Ok(Type::Bool),
        IncompleteType::Int { width, signedness } => Ok(
            Type::Int { width: *width, signedness: *signedness },
        ),
        IncompleteType::Float { width } => Ok(Type::Float { width: *width }),
        IncompleteType::Vector { element_count, element_type } => {
            match resolve_id(inc, &vis, *element_type, fuel - 1) {
                Ok(t) => Ok(
                    Type::Vector { element_count: *element_count, element_type: Box::new(t) },
                ),
                Err(e) => Err(e),
            }
        },
        IncompleteType::Matrix { column_count, column_type } => {
            match resolve_id(inc, &vis, *column_type, fuel - 1) {
                Ok(t) => Ok(
                    Type::Matrix { column_count: *column_count, column_type: Box::new(t) },
                ),
                Err(e) => Err(e),
            }
        },
        IncompleteType::Array { element_count, element_type } => {
            match resolve_id(inc, &vis, *element_type, fuel - 1) {
                Ok(t) => Ok(
                    Type::Array { element_count: *element_count, element_type: Box::new(t) },
                ),
                Err(e) => Err(e),
            }
        },
        IncompleteType::RuntimeArray { element_type } => {
            match resolve_id(inc, &vis, *element_type, fuel - 1) {
                Ok(t) => Ok(Type::RuntimeArray { element_type: Box::new(t) }),
                Err(e) => Err(e),
            }
        },
        IncompleteType::Struct { name, member_types, interface_block } => {
            let ghost members_m = member_types@;
            let mut resolved: Vec<Type> = Vec::new();
            let mut j: usize = 0;
            proof {
                assert(members_m.skip(0) =~= members_m);
                assert(type_models(resolved@) =~= Seq::<TypeView>::empty());
            }
            while j < member_types.len()
                invariant
                    j <= members_m.len(),
                    fuel >= 1,
                    inc_m == inc@.map_values(|p: (u32, IncompleteType)| p@),
                    vis@ == visiting@.push(id),
                    match spec_resolve_members(
                        inc_m,
                        vis@,
                        members_m.skip(j as int),
                        (fuel - 1) as nat,
                    ) {
                        Ok(rest) => spec_resolve_members(
                            inc_m,
                            vis@,
                            members_m,
                            (fuel - 1) as nat,
                        ) == Ok::<_, ErrorView>(type_models(resolved@) + rest),
                        Err(e) => spec_resolve_members(
                            inc_m,
                            vis@,
                            members_m,
                            (fuel - 1) as nat,
                        ) == Err::<Seq<TypeView>, _>(e),
                    },
                decreases members_m.len() - j,
            {
                let ghost pre = members_m.skip(j as int);
                let ghost done = type_models(resolved@);
                proof {
                    assert(pre.drop_first() =~= members_m.skip(j + 1));
                    assert(pre[0] == members_m[j as int]);
                }
                match resolve_id(inc, &vis, member_types[j], fuel - 1) {
                    Ok(t) => {
                        let ghost tm = t.model();
                        let ghost before = resolved@;
                        resolved.push(t);
                        proof {
                            assert(resolved@.drop_last() =~= before);
                            assert(resolved@.last() == resolved@[resolved@.len() - 1]);
                            lemma_type_models_push(resolved@, done, tm);
                            if let Ok(rest) = spec_resolve_members(
                                inc_m,
                                vis@,
                                members_m.skip(j + 1),
                                (fuel - 1) as nat,
                            ) {
                                assert(done + (seq![tm] + rest) =~= done.push(tm) + rest);
                            }
                        }
                    },
                    Err(e) => {
                        return Err(e);
                    },
                }
                j = j + 1;
            }
            proof {
                assert(members_m.skip(members_m.len() as int) =~= Seq::<u32>::empty());
                if let Ok(rest) = spec_resolve_members(
                    inc_m,
                    vis@,
                    members_m.skip(members_m.len() as int),
                    (fuel - 1) as nat,
                ) {
                    assert(type_models(resolved@) + rest =~= type_models(resolved@));
                }
            }
            let ids = crate::parse::copy_range(member_types, 0, member_types.len());
            proof {
                assert(ids@ =~= member_types@);
            }
            Ok(
                Type::Struct {
                    name: name.clone(),
                    member_types: resolved,
                    member_type_ids: ids,
                    interface_block: *interface_block,
                },
            )
        },
        IncompleteType::Pointer { storage_class, pointee_type } => {
            match resolve_id(inc, &vis, *pointee_type, fuel - 1) {
                Ok(t) => Ok(
                    Type::Pointer { storage_class: *storage_class, pointee_type: Box::new(t) },
                ),
                Err(e) => Err(e),
            }
        },
        IncompleteType::SampledImage { image_type } => {
            match resolve_id(inc, &vis, *image_type, fuel - 1) {
                Ok(t) => Ok(Type::SampledImage { image_type: Box::new(t) }),
                Err(e) => Err(e),
            }
        },
        IncompleteType::Sampler => Ok(Type::Sampler),
        IncompleteType::Image {
            sampled_type,
            dim,
            depth,
            arrayed,
            ms,
            sampled,
            format,
            access_qualifier,
        } => {
            match resolve_id(inc, &vis, *sampled_type, fuel - 1) {
                Ok(t) => Ok(
                    Type::Image {
                        sampled_type: Box::new(t),
                        dim: *dim,
                        depth: *depth,
                        arrayed: *arrayed,
                        ms: *ms,
                        sampled: *sampled,
                        format: *format,
                        access_qualifier: *access_qualifier,
                    },
                ),
                Err(e) => Err(e),
            }
        },
    }
}

/// Appending one type appends its model.
pub proof fn lemma_type_models_push(s: Seq<Type>, prefix_models: Seq<TypeView>, tm: TypeView)
    requires
        s.len() >= 1,
        type_models(s.drop_last()) == prefix_models,
        s.last().model() == tm,
    ensures
        type_models(s) == prefix_models.push(tm),
{
    lemma_type_models(s);
    lemma_type_models(s.drop_last());
    assert forall|i: int| 0 <= i < s.len() implies type_models(s)[i] == prefix_models.push(tm)[i]
    by {
        assert(type_models(s)[i] == s[i].model());
        if i < s.len() - 1 {
            assert(type_models(s.drop_last())[i] == s.drop_last()[i].model());
            assert(s.drop_last()[i] == s[i]);
        } else {
            assert(s[i] == s.last());
        }
    }
    assert(type_models(s) =~= prefix_models.push(tm));
}

/// Resolves every declared id from position `k` on, in declaration order.
/// Each resolution starts from an empty visiting set with fuel enough that
/// it can only fail on a missing id or a genuine cycle.
pub open spec fn spec_resolve_all(inc: Seq<(u32, IncompleteTypeView)>, k: int) -> Result<
    Seq<(u32, TypeView)>,
    ErrorView,
>
    decreases inc.len() - k,
{
    if k < 0 || k >= inc.len() {
        Ok(Seq::empty())
    } else {
        match spec_resolve_id(inc, Seq::empty(), inc[k].0, inc.len() as nat) {
            Err(e) => Err(e),
            Ok(t) => match spec_resolve_all(inc, k + 1) {
                Ok(rest) => Ok(seq![(inc[k].0, t)] + rest),
                Err(e) => Err(e),
            },
        }
    }
}

/// Resolves the whole incomplete table into an id-keyed list of owned
/// types, in declaration order.
pub fn resolve_all(inc: &Vec<(u32, IncompleteType)>) -> (r: Result<Vec<(u32, Type)>, Error>)
    ensures
        match r {
            Ok(v) => spec_resolve_all(inc@.map_values(|p: (u32, IncompleteType)| p@), 0)
                == Ok::<_, ErrorView>(v@.map_values(|p: (u32, Type)| (p.0, p.1.model()))),
            Err(e) => spec_resolve_all(inc@.map_values(|p: (u32, IncompleteType)| p@), 0)
                == Err::<Seq<(u32, TypeView)>, _>(e@),
        },
{
    let ghost inc_m = inc@.map_values(|p: (u32, IncompleteType)| p@);
    let mut out: Vec<(u32, Type)> = Vec::new();
    let mut k: usize = 0;
    let empty_visiting: Vec<u32> = Vec::new();
    proof {
        assert(out@.map_values(|p: (u32, Type)| (p.0, p.1.model())) =~= Seq::<
            (u32, TypeView),
        >::empty());
    }
    while k < inc.len()
        invariant
            k <= inc@.len(),
            empty_visiting@ == Seq::<u32>::empty(),
            inc_m == inc@.map_values(|p: (u32, IncompleteType)| p@),
            match spec_resolve_all(inc_m, k as int) {
                Ok(rest) => spec_resolve_all(inc_m, 0) == Ok::<_, ErrorView>(
                    out@.map_values(|p: (u32, Type)| (p.0, p.1.model())) + rest,
                ),
                Err(e) => spec_resolve_all(inc_m, 0) == Err::<Seq<(u32, TypeView)>, _>(e),
            },
        decreases inc@.len() - k,
    {
        let ghost done = out@.map_values(|p: (u32, Type)| (p.0, p.1.model()));
        let id = inc[k].0;
        match resolve_id(inc, &empty_visiting, id, inc.len()) {
            Err(e) => {
                return Err(e);
            },
            Ok(t) => {
                let ghost tm = t.model();
                out.push((id, t));
                proof {
                    assert(out@.map_values(|p: (u32, Type)| (p.0, p.1.model())) =~= done.push(
                        (id, tm),
                    ));
                    if let Ok(rest) = spec_resolve_all(inc_m, k + 1) {
                        assert(done + (seq![(id, tm)] + rest) =~= done.push((id, tm)) + rest);
                    }
                }
            },
        }
        k = k + 1;
    }
    proof {
        if let Ok(rest) = spec_resolve_all(inc_m, inc@.len() as int) {
            assert(out@.map_values(|p: (u32, Type)| (p.0, p.1.model())) + rest =~= out@.map_values(
                |p: (u32, Type)| (p.0, p.1.model()),
            ));
        }
    }
    Ok(out)
}

/// The resolved type recorded for `id`, if any; ids are unique.
pub open spec fn lookup_type(types: Seq<(u32, TypeView)>, id: u32) -> Option<TypeView>
    decreases types.len(),
{
    if types.len() == 0 {
        None
    } else if types[0].0 == id {
        Some(types[0].1)
    } else {
        lookup_type(types.drop_first(), id)
    }
}

/// Looks a resolved type up by id, yielding an owned copy.
pub fn type_of(types: &Vec<(u32, Type)>, id: u32) -> (r: Option<Type>)
    ensures
        match r {
            Some(t) => lookup_type(types@.map_values(|p: (u32, Type)| (p.0, p.1.model())), id)
                == Some(t.model()),
            None => lookup_type(types@.map_values(|p: (u32, Type)| (p.0, p.1.model())), id)
                is None,
        },
{
    let ghost model = types@.map_values(|p: (u32, Type)| (p.0, p.1.model()));
    let mut i: usize = 0;
    proof {
        assert(model.skip(0) =~= model);
    }
    while i < types.len()
        invariant
            i <= types@.len(),
            lookup_type(model, id) == lookup_type(model.skip(i as int), id),
        decreases types@.len() - i,
    {
        proof {
            assert(model.skip(i as int).drop_first() =~= model.skip(i + 1));
        }
        if types[i].0 == id {
            return Some(types[i].1.clone());
        }
        i = i + 1;
    }
    proof {
        assert(model.skip(types@.len() as int) =~= Seq::<(u32, TypeView)>::empty());
    }
    None
}

/// When resolution of the whole table succeeds, it is total over the
/// declarations: the result holds exactly the declared ids, one resolved
/// tree per declaration, in declaration order.
pub proof fn lemma_resolve_all_total(inc: Seq<(u32, IncompleteTypeView)>, k: int)
    requires
        0 <= k <= inc.len(),
    ensures
        spec_resolve_all(inc, k) matches Ok(v) ==> {
            &&& v.len() == inc.len() - k
            &&& forall|i: int| 0 <= i < v.len() ==> #[trigger] v[i].0 == inc[k + i].0
        },
    decreases inc.len() - k,
{
    if k < inc.len() {
        lemma_resolve_all_total(inc, k + 1);
    }
}

/// The ids a declaration references as its children.
pub open spec fn decl_children(d: IncompleteTypeView) -> Seq<u32> {
    match d {
        IncompleteTypeView::Vector { element_type, .. } => seq![element_type],
        IncompleteTypeView::Matrix { column_type, .. } => seq![column_type],
        IncompleteTypeView::Array { element_type, .. } => seq![element_type],
        IncompleteTypeView::RuntimeArray { element_type } => seq![element_type],
        IncompleteTypeView::Struct { member_types, .. } => member_types,
        IncompleteTypeView::Pointer { pointee_type, .. } => seq![pointee_type],
        IncompleteTypeView::SampledImage { image_type } => seq![image_type],
        IncompleteTypeView::Image { sampled_type, .. } => seq![sampled_type],
        _ => Seq::empty(),
    }
}

/// A declared id's lookup finds one of the table's entries.
proof fn lemma_lookup_incomplete_index(inc: Seq<(u32, IncompleteTypeView)>, id: u32)
    requires
        has_incomplete(inc, id),
    ensures
        exists|i: int|
            0 <= i < inc.len() && #[trigger] inc[i].0 == id && lookup_incomplete(inc, id)
                == Some(inc[i].1),
    decreases inc.len(),
{
    if inc[0].0 == id {
        assert(inc[0].0 == id);
    } else {
        let rest = inc.drop_first();
        assert forall|j: int| 0 <= j < inc.len() && inc[j].0 == id implies j >= 1 by {}
        let w = choose|w: int| 0 <= w < inc.len() && #[trigger] inc[w].0 == id;
        assert(rest[w - 1].0 == id);
        assert(has_incomplete(rest, id));
        lemma_lookup_incomplete_index(rest, id);
        let i = choose|i: int|
            0 <= i < rest.len() && #[trigger] rest[i].0 == id && lookup_incomplete(rest, id)
                == Some(rest[i].1);
        assert(inc[i + 1].0 == id);
        assert(lookup_incomplete(inc, id) == Some(inc[i + 1].1));
    }
}

/// Whether a rank function witnesses that the declarations are closed and
/// acyclic: every child of every declared type is itself declared, with a
/// strictly smaller rank.
pub open spec fn rank_decreases(inc: Seq<(u32, IncompleteTypeView)>, rank: spec_fn(u32) -> nat)
    -> bool {
    forall|i: int, j: int|
        0 <= i < inc.len() && 0 <= j < decl_children(inc[i].1).len() ==> {
            let c = #[trigger] decl_children(#[trigger] inc[i].1)[j];
            has_incomplete(inc, c) && rank(c) < rank(inc[i].0)
        }
}

/// Resolving a declared id succeeds when the table is closed and acyclic,
/// every id on the way here outranks it, and the fuel exceeds its rank.
proof fn lemma_resolve_id_succeeds(
    inc: Seq<(u32, IncompleteTypeView)>,
    visiting: Seq<u32>,
    id: u32,
    fuel: nat,
    rank: spec_fn(u32) -> nat,
)
    requires
        rank_decreases(inc, rank),
        has_incomplete(inc, id),
        forall|v: int| 0 <= v < visiting.len() ==> rank(#[trigger] visiting[v]) > rank(id),
        fuel > rank(id),
    ensures
        spec_resolve_id(inc, visiting, id, fuel) is Ok,
    decreases fuel, 1int,
{
    assert(!visiting.contains(id)) by {
        if visiting.contains(id) {
            let v = choose|v: int| 0 <= v < visiting.len() && visiting[v] == id;
            assert(rank(visiting[v]) > rank(id));
        }
    }
    lemma_lookup_incomplete_index(inc, id);
    let i = choose|i: int|
        0 <= i < inc.len() && #[trigger] inc[i].0 == id && lookup_incomplete(inc, id) == Some(
            inc[i].1,
        );
    let d = inc[i].1;
    let vis = visiting.push(id);
    assert forall|j: int| 0 <= j < decl_children(d).len() implies has_incomplete(
        inc,
        #[trigger] decl_children(d)[j],
    ) && rank(decl_children(d)[j]) < rank(id) by {
        assert(decl_children(inc[i].1)[j] == decl_children(d)[j]);
    }
    assert forall|c: u32, v: int|
        #![trigger decl_children(d).contains(c), vis[v]]
        decl_children(d).contains(c) && 0 <= v < vis.len() implies rank(vis[v]) > rank(c) by {
        let j = choose|j: int| 0 <= j < decl_children(d).len() && decl_children(d)[j] == c;
        if v < visiting.len() {
            assert(rank(visiting[v]) > rank(id));
        }
    }
    match d {
        IncompleteTypeView::Vector { element_type, .. } => {
            assert(decl_children(d)[0] == element_type);
            assert(decl_children(d).contains(element_type));
            lemma_resolve_id_succeeds(inc, vis, element_type, (fuel - 1) as nat, rank);
        },
        IncompleteTypeView::Matrix { column_type, .. } => {
            assert(decl_children(d)[0] == column_type);
            assert(decl_children(d).contains(column_type));
            lemma_resolve_id_succeeds(inc, vis, column_type, (fuel - 1) as nat, rank);
        },
        IncompleteTypeView::Array { element_type, .. } => {
            assert(decl_children(d)[0] == element_type);
            assert(decl_children(d).contains(element_type));
            lemma_resolve_id_succeeds(inc, vis, element_type, (fuel - 1) as nat, rank);
        },
        IncompleteTypeView::RuntimeArray { element_type } => {
            assert(decl_children(d)[0] == element_type);
            assert(decl_children(d).contains(element_type));
            lemma_resolve_id_succeeds(inc, vis, element_type, (fuel - 1) as nat, rank);
        },
        IncompleteTypeView::Struct { member_types, .. } => {
            assert(decl_children(d) == member_types);
            lemma_resolve_members_succeed(inc, vis, member_types, (fuel - 1) as nat, rank, id);
        },
        IncompleteTypeView::Pointer { pointee_type, .. } => {
            assert(decl_children(d)[0] == pointee_type);
            assert(decl_children(d).contains(pointee_type));
            lemma_resolve_id_succeeds(inc, vis, pointee_type, (fuel - 1) as nat, rank);
        },
        IncompleteTypeView::SampledImage { image_type } => {
            assert(decl_children(d)[0] == image_type);
            assert(decl_children(d).contains(image_type));
            lemma_resolve_id_succeeds(inc, vis, image_type, (fuel - 1) as nat, rank);
        },
        IncompleteTypeView::Image { sampled_type, .. } => {
            assert(decl_children(d)[0] == sampled_type);
            assert(decl_children(d).contains(sampled_type));
            lemma_resolve_id_succeeds(inc, vis, sampled_type, (fuel - 1) as nat, rank);
        },
        _ => {},
    }
}

/// Resolving a list of member ids succeeds when each is declared with a
/// rank below its parent's, the parent's rank is below the fuel bound, and
/// everything on the path outranks every member.
proof fn lemma_resolve_members_succeed(
    inc: Seq<(u32, IncompleteTypeView)>,
    visiting: Seq<u32>,
    members: Seq<u32>,
    fuel: nat,
    rank: spec_fn(u32) -> nat,
    parent: u32,
)
    requires
        rank_decreases(inc, rank),
        forall|j: int| 0 <= j < members.len() ==> has_incomplete(inc, #[trigger] members[j])
            && rank(members[j]) < rank(parent),
        forall|v: int| 0 <= v < visiting.len() ==> rank(#[trigger] visiting[v]) >= rank(parent),
        fuel >= rank(parent),
    ensures
        spec_resolve_members(inc, visiting, members, fuel) is Ok,
    decreases fuel, members.len() + 2,
{
    if members.len() > 0 {
        assert forall|v: int| 0 <= v < visiting.len() implies rank(#[trigger] visiting[v])
            > rank(members[0]) by {
            assert(rank(visiting[v]) >= rank(parent));
        }
        lemma_resolve_id_succeeds(inc, visiting, members[0], fuel, rank);
        assert forall|j: int| 0 <= j < members.drop_first().len() implies has_incomplete(
            inc,
            #[trigger] members.drop_first()[j],
        ) && rank(members.drop_first()[j]) < rank(parent) by {
            assert(members.drop_first()[j] == members[j + 1]);
        }
        lemma_resolve_members_succeed(
            inc,
            visiting,
            members.drop_first(),
            fuel,
            rank,
            parent,
        );
    }
}

/// Type resolution is total: when every referenced id has a declaration
/// and a rank function witnesses that the references are acyclic, resolving
/// the whole table succeeds, and by [`lemma_resolve_all_total`] the result
/// then carries exactly the declared ids in declaration order.
pub proof fn lemma_resolution_totality(
    inc: Seq<(u32, IncompleteTypeView)>,
    rank: spec_fn(u32) -> nat,
)
    requires
        rank_decreases(inc, rank),
        forall|i: int| 0 <= i < inc.len() ==> rank(#[trigger] inc[i].0) < inc.len(),
    ensures
        spec_resolve_all(inc, 0) is Ok,
{
    lemma_resolve_all_succeeds(inc, rank, 0);
}

proof fn lemma_resolve_all_succeeds(
    inc: Seq<(u32, IncompleteTypeView)>,
    rank: spec_fn(u32) -> nat,
    k: int,
)
    requires
        rank_decreases(inc, rank),
        forall|i: int| 0 <= i < inc.len() ==> rank(#[trigger] inc[i].0) < inc.len(),
        0 <= k,
    ensures
        spec_resolve_all(inc, k) is Ok,
    decreases inc.len() - k,
{
    if k < inc.len() {
        assert(inc[k].0 == inc[k].0);
        assert(has_incomplete(inc, inc[k].0));
        lemma_resolve_id_succeeds(inc, Seq::empty(), inc[k].0, inc.len() as nat, rank);
        lemma_resolve_all_succeeds(inc, rank, k + 1);
    }
}

/// An array length constant declared as two little-endian words assembles
/// to its low word plus its high word shifted by thirty-two bits.
pub proof fn lemma_constant_value_two_words(w0: u32, w1: u32)
    ensures
        spec_constant_value(seq![w0, w1]) == w0 + (w1 as u64) * 0x1_0000_0000,
{
    let s = seq![w0, w1];
    assert(s.drop_first() =~= seq![w1]);
    assert(seq![w1].drop_first() =~= Seq::<u32>::empty());
    assert(spec_constant_value(Seq::<u32>::empty()) == 0);
    assert(spec_constant_value(seq![w1]) == ((0u64 << 32) | w1 as u64));
    assert((0u64 << 32) | (w1 as u64) == w1 as u64) by (bit_vector);
    assert(((w1 as u64) << 32) | (w0 as u64) == (w0 as u64) + (w1 as u64) * 0x1_0000_0000)
        by (bit_vector);
}

/// What the whole type extraction yields: the incomplete declarations
/// gathered with their array lengths and struct names settled, then every
/// id resolved into an owned tree.
pub open spec fn spec_extract_types(
    instrs: Seq<InstructionView>,
    names: Seq<(u32, Seq<char>)>,
    decs: Seq<DecorationEntryView>,
) -> Result<Seq<(u32, TypeView)>, ErrorView> {
    let consts = spec_constants(instrs, Seq::empty());
    match spec_incomplete_types(instrs, names, decs, consts, Seq::empty()) {
        Err(e) => Err(e),
        Ok(inc) => spec_resolve_all(inc, 0),
    }
}

/// Resolves the module's type section: collects every type declaration
/// (failing on duplicates, a missing array-length constant or an unnamed
/// struct) and resolves the id graph into owned type trees, in declaration
/// order. A reference to an undeclared id, or a genuine cycle, fails with
/// `UnresolvedReference` naming the id.
pub fn extract_types(
    instructions: &Vec<Instruction>,
    names: &Vec<(u32, String)>,
    decorations: &Vec<DecorationEntry>,
) -> (r: Result<Vec<(u32, Type)>, Error>)
    ensures
        match r {
            Ok(v) => spec_extract_types(
                instructions@.map_values(|ins: Instruction| ins@),
                names@.map_values(|p: (u32, String)| p@),
                decorations@.map_values(|e: DecorationEntry| e@),
            ) == Ok::<_, ErrorView>(v@.map_values(|p: (u32, Type)| (p.0, p.1.model()))),
            Err(e) => spec_extract_types(
                instructions@.map_values(|ins: Instruction| ins@),
                names@.map_values(|p: (u32, String)| p@),
                decorations@.map_values(|e: DecorationEntry| e@),
            ) == Err::<Seq<(u32, TypeView)>, _>(e@),
        },
{
    let constants = crate::tables::build_constants(instructions);
    match build_incomplete_types(instructions, names, decorations, &constants) {
        Err(e) => Err(e),
        Ok(inc) => resolve_all(&inc),
    }
}

} // verus!
