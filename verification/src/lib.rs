//! A verified reflection core for SPIR-V shader binaries.
//!
//! A compiled shader module goes in as bytes; what comes out is the
//! reflection model a host-side emitter needs: the entry points with their
//! validated input/output interfaces, the descriptor bindings with their
//! classified kinds, the push-constant range, and the specialization
//! constants with their packed byte layout. The pipeline runs in strict
//! stages — decode ([`parse`]), symbol tables ([`tables`]), type-graph
//! resolution ([`types`]), layout derivation, reflection extraction
//! ([`shader`], [`descriptor_sets`], [`entry_point`], [`spec_consts`]) —
//! and every stage's behaviour is pinned to a mathematical model, so that
//! [`reflect`] is provably deterministic and free of panics: every failure
//! is one of the typed [`Error`] kinds.

#![verifier::loop_isolation(false)]

pub mod descriptor_sets;
pub mod entry_point;
pub mod enums;
pub mod parse;
pub mod shader;
pub mod spec_consts;
pub mod tables;
pub mod text;
pub mod types;

use vstd::prelude::*;

use crate::descriptor_sets::{spec_descriptor_descs, DescriptorDesc};
use crate::entry_point::{
    spec_entry_point_interfaces, spec_interface_structs, EntryPointInterface,
    EntryPointInterfaceView, InterfaceStruct, InterfaceStructView,
};
use crate::enums::Decoration;
use crate::parse::{parse_spirv_spec, Instruction, InstructionView, Spirv};
use crate::shader::{spec_from_spirv, Shader, ShaderView};
use crate::spec_consts::{spec_map_entries, SpecializationMapEntry};
use crate::types::{spec_rust_type, type_models, Type, TypeView};

verus! {

broadcast use {vstd::std_specs::vec::group_vec_axioms, vstd::seq::group_seq_axioms};

/// Everything that can go wrong between the raw bytes and the finished
/// reflection model. Every failure is reported through one of these kinds;
/// nothing is defaulted silently and nothing panics.
#[derive(Debug, Clone, PartialEq, Eq)]
pub enum Error {
    /// The magic number is wrong, the buffer ends mid-instruction, or a word
    /// count disagrees with the remaining length.
    MalformedBinary,
    /// An id received two `Name` instructions, or two type declarations.
    DuplicateDeclaration { id: u32 },
    /// An id is referenced but nothing declares it; genuine type cycles
    /// surface here as well.
    UnresolvedReference { id: u32 },
    /// A decoration that is mandatory in context (`Binding`, `SpecId`,
    /// `Location`) is absent from the id.
    MissingDecoration { id: u32, decoration: Decoration },
    /// A descriptor variable's pointee shape maps to no known descriptor kind.
    UnsupportedDescriptorShape,
    /// An image type breaks the rules of its dimension, such as a subpass
    /// input with a known format or a sampled flag.
    InvalidImageConfiguration,
    /// A stage whose interface variables must be array-wrapped met a
    /// variable whose type is not an array.
    ArrayStripMismatch,
    /// Two interface attributes claim the same location slot; both of their
    /// names are reported.
    OverlappingInterfaceLocations { first: String, second: String },
    /// A specialization constant or push constant has no computable host
    /// size, or a size computation exceeds the machine's limits.
    UnsizedType,
}

/// The mathematical shadow of [`Error`]: strings are sequences of characters.
pub enum ErrorView {
    MalformedBinary,
    DuplicateDeclaration { id: u32 },
    UnresolvedReference { id: u32 },
    MissingDecoration { id: u32, decoration: Decoration },
    UnsupportedDescriptorShape,
    InvalidImageConfiguration,
    ArrayStripMismatch,
    OverlappingInterfaceLocations { first: Seq<char>, second: Seq<char> },
    UnsizedType,
}

impl View for Error {
    type V = ErrorView;

    open spec fn view(&self) -> ErrorView {
        match self {
            Error::MalformedBinary => ErrorView::MalformedBinary,
            Error::DuplicateDeclaration { id } => ErrorView::DuplicateDeclaration { id: *id },
            Error::UnresolvedReference { id } => ErrorView::UnresolvedReference { id: *id },
            Error::MissingDecoration { id, decoration } => ErrorView::MissingDecoration {
                id: *id,
                decoration: *decoration,
            },
            Error::UnsupportedDescriptorShape => ErrorView::UnsupportedDescriptorShape,
            Error::InvalidImageConfiguration => ErrorView::InvalidImageConfiguration,
            Error::ArrayStripMismatch => ErrorView::ArrayStripMismatch,
            Error::OverlappingInterfaceLocations { first, second } => {
                ErrorView::OverlappingInterfaceLocations { first: first@, second: second@ }
            },
            Error::UnsizedType => ErrorView::UnsizedType,
        }
    }
}

/// The model of an optional value whose type has a model.
pub open spec fn opt_view<T: View>(r: Option<T>) -> Option<T::V> {
    match r {
        Some(v) => Some(v@),
        None => None,
    }
}

/// The model of a result whose both sides have models.
pub open spec fn res_view<T: View, E: View>(r: Result<T, E>) -> Result<T::V, E::V> {
    match r {
        Ok(v) => Ok(v@),
        Err(e) => Err(e@),
    }
}

/// The single push-constant range: it starts at offset zero and spans the
/// largest host size among the push-constant types.
#[derive(Debug, Clone, Copy, PartialEq, Eq, Structural)]
pub struct PushConstantRange {
    pub offset: usize,
    pub size: usize,
}

/// The largest host size among the push-constant types; a type without a
/// host size is an `UnsizedType` error.
pub open spec fn spec_push_constants_size(pcs: Seq<TypeView>) -> Result<usize, ErrorView>
    decreases pcs.len(),
{
    if pcs.len() == 0 {
        Ok(0usize)
    } else {
        match spec_rust_type(pcs[0]) {
            None => Err(ErrorView::UnsizedType),
            Some(rt) => match rt.size {
                None => Err(ErrorView::UnsizedType),
                Some(s) => match spec_push_constants_size(pcs.drop_first()) {
                    Err(e) => Err(e),
                    Ok(m) => Ok(if s > m {
                        s
                    } else {
                        m
                    }),
                },
            },
        }
    }
}

/// The push-constant range the types demand: none when the largest size is
/// zero, else a range of that size starting at offset zero.
pub open spec fn spec_push_constants_range(pcs: Seq<TypeView>) -> Result<
    Option<PushConstantRange>,
    ErrorView,
> {
    match spec_push_constants_size(pcs) {
        Err(e) => Err(e),
        Ok(s) => if s == 0 {
            Ok(None)
        } else {
            Ok(Some(PushConstantRange { offset: 0, size: s }))
        },
    }
}

/// Computes the single push-constant range of the module.
pub fn push_constants_range(push_constants: &Vec<Type>) -> (r: Result<
    Option<PushConstantRange>,
    Error,
>)
    ensures
        match r {
            Ok(v) => spec_push_constants_range(type_models(push_constants@)) == Ok::<
                _,
                ErrorView,
            >(v),
            Err(e) => spec_push_constants_range(type_models(push_constants@)) == Err::<
                Option<PushConstantRange>,
                _,
            >(e@),
        },
{
    let ghost all = type_models(push_constants@);
    let mut max: usize = 0;
    let mut i: usize = 0;
    proof {
        crate::types::lemma_type_models(push_constants@);
        assert(all.skip(0) =~= all);
    }
    while i < push_constants.len()
        invariant
            i <= all.len(),
            all == type_models(push_constants@),
            all.len() == push_constants@.len(),
            forall|j: int| 0 <= j < all.len() ==> all[j] == #[trigger] push_constants@[j].model(),
            match spec_push_constants_size(all.skip(i as int)) {
                Ok(m) => spec_push_constants_size(all) == Ok::<_, ErrorView>(
                    if max > m {
                        max
                    } else {
                        m
                    },
                ),
                Err(e) => spec_push_constants_size(all) == Err::<usize, _>(e),
            },
        decreases all.len() - i,
    {
        let ghost pre = all.skip(i as int);
        proof {
            assert(pre.drop_first() =~= all.skip(i + 1));
            assert(pre[0] == push_constants@[i as int].model());
        }
        let rt = match push_constants[i].rust_type() {
            None => {
                return Err(Error::UnsizedType);
            },
            Some(rt) => rt,
        };
        let s = match rt.size {
            None => {
                return Err(Error::UnsizedType);
            },
            Some(s) => s,
        };
        if s > max {
            max = s;
        }
        i = i + 1;
    }
    proof {
        assert(all.skip(all.len() as int) =~= Seq::<TypeView>::empty());
    }
    if max == 0 {
        Ok(None)
    } else {
        Ok(Some(PushConstantRange { offset: 0, size: max }))
    }
}

/// The finished reflection model: the shader's tables and lists, the
/// validated per-entry-point interfaces and their named attribute structs,
/// the classified descriptors, the packed specialization map, and the
/// push-constant range.
#[derive(Debug, Clone, PartialEq, Eq)]
pub struct Reflection {
    pub shader: Shader,
    pub entry_point_interfaces: Vec<EntryPointInterface>,
    pub interface_structs: Vec<InterfaceStruct>,
    pub descriptor_descs: Vec<DescriptorDesc>,
    pub specialization_map: Vec<SpecializationMapEntry>,
    pub push_constant_range: Option<PushConstantRange>,
}

pub struct ReflectionView {
    pub shader: ShaderView,
    pub entry_point_interfaces: Seq<EntryPointInterfaceView>,
    pub interface_structs: Seq<InterfaceStructView>,
    pub descriptor_descs: Seq<DescriptorDesc>,
    pub specialization_map: Seq<SpecializationMapEntry>,
    pub push_constant_range: Option<PushConstantRange>,
}

impl View for Reflection {
    type V = ReflectionView;

    open spec fn view(&self) -> ReflectionView {
        ReflectionView {
            shader: self.shader@,
            entry_point_interfaces: self.entry_point_interfaces@.map_values(
                |d: EntryPointInterface| d@,
            ),
            interface_structs: self.interface_structs@.map_values(|s: InterfaceStruct| s@),
            descriptor_descs: self.descriptor_descs@,
            specialization_map: self.specialization_map@,
            push_constant_range: self.push_constant_range,
        }
    }
}

/// What reflecting a byte buffer yields: the decoded document, the shader
/// model built from it, and every derived list, or the first error on the
/// way.
pub open spec fn spec_reflect(bytes: Seq<u8>) -> Result<ReflectionView, ErrorView> {
    match parse_spirv_spec(bytes) {
        Err(e) => Err(e),
        Ok(doc) => match spec_from_spirv(doc) {
            Err(e) => Err(e),
            Ok(sh) => match spec_entry_point_interfaces(sh.entry_points) {
                Err(e) => Err(e),
                Ok(interfaces) => match spec_interface_structs(sh.entry_points) {
                    Err(e) => Err(e),
                    Ok(structs) => match spec_descriptor_descs(sh.descriptors) {
                        Err(e) => Err(e),
                        Ok(descs) => match spec_map_entries(sh.specialization_constants, 0) {
                            Err(e) => Err(e),
                            Ok(map) => match spec_push_constants_range(sh.push_constants) {
                                Err(e) => Err(e),
                                Ok(range) => Ok(
                                    ReflectionView {
                                        shader: sh,
                                        entry_point_interfaces: interfaces,
                                        interface_structs: structs,
                                        descriptor_descs: descs,
                                        specialization_map: map,
                                        push_constant_range: range,
                                    },
                                ),
                            },
                        },
                    },
                },
            },
        },
    }
}

/// Derives the whole reflection model from a shader binary: decodes the
/// bytes, builds the symbol tables and the type graph, and derives the
/// descriptor, interface, specialization-constant and push-constant views.
/// Every failure mode surfaces as a typed [`Error`]; nothing panics and
/// nothing is silently defaulted.
pub fn reflect(data: &[u8]) -> (r: Result<Reflection, Error>)
    ensures
        res_view(r) == spec_reflect(data@),
{
    let spirv = match crate::parse::parse_spirv(data) {
        Err(e) => {
            return Err(e);
        },
        Ok(s) => s,
    };
    let shader = match Shader::from_spirv(spirv) {
        Err(e) => {
            return Err(e);
        },
        Ok(s) => s,
    };
    let entry_point_interfaces = match crate::entry_point::write_entry_points(
        &shader.entry_points,
    ) {
        Err(e) => {
            return Err(e);
        },
        Ok(v) => v,
    };
    let interface_structs = match crate::entry_point::write_interface_structs(
        &shader.entry_points,
    ) {
        Err(e) => {
            return Err(e);
        },
        Ok(v) => v,
    };
    let descriptor_descs = match crate::descriptor_sets::build_descriptor_descs(
        &shader.descriptors,
    ) {
        Err(e) => {
            return Err(e);
        },
        Ok(v) => v,
    };
    let specialization_map = match crate::spec_consts::write(&shader.specialization_constants) {
        Err(e) => {
            return Err(e);
        },
        Ok(v) => v,
    };
    let push_constant_range = match push_constants_range(&shader.push_constants) {
        Err(e) => {
            return Err(e);
        },
        Ok(v) => v,
    };
    Ok(
        Reflection {
            shader,
            entry_point_interfaces,
            interface_structs,
            descriptor_descs,
            specialization_map,
            push_constant_range,
        },
    )
}

/// Reflection is deterministic: two runs over the same bytes give
/// structurally identical models. The hypotheses are exactly what two calls
/// of [`reflect`] on the same buffer establish.
pub proof fn lemma_reflect_deterministic(
    bytes: Seq<u8>,
    r1: Result<ReflectionView, ErrorView>,
    r2: Result<ReflectionView, ErrorView>,
)
    requires
        r1 == spec_reflect(bytes),
        r2 == spec_reflect(bytes),
    ensures
        r1 == r2,
{
}

/// Whether one instruction decorates `id` as built in.
pub open spec fn is_builtin_decoration_for(ins: InstructionView, id: u32) -> bool {
    match ins {
        InstructionView::Decorate { target_id, decoration: Decoration::BuiltIn, .. } => target_id
            == id,
        InstructionView::MemberDecorate { target_id, decoration: Decoration::BuiltIn, .. } => {
            target_id == id
        },
        _ => false,
    }
}

/// Whether any instruction decorates `id` or one of its members as built
/// in.
pub open spec fn spec_has_builtin_decoration(instrs: Seq<InstructionView>, id: u32) -> bool {
    exists|k: int| 0 <= k < instrs.len() && is_builtin_decoration_for(#[trigger] instrs[k], id)
}

/// Whether `id` reads as built in: it carries a `BuiltIn` decoration
/// itself, or it is a variable, array, struct member chain or pointer
/// whose underlying type does. The walk is bounded by `fuel`; a chain
/// deeper than the fuel (only a cyclic document can make one) reads as
/// not built in.
pub open spec fn spec_is_builtin(instrs: Seq<InstructionView>, id: u32, fuel: nat) -> bool
    decreases fuel, 2int, 0int,
{
    if spec_has_builtin_decoration(instrs, id) {
        true
    } else if fuel == 0 {
        false
    } else {
        spec_builtin_scan(instrs, instrs, id, fuel)
    }
}

/// One pass over the remaining instructions looking for what `id` declares,
/// following the first matching declaration's underlying type.
pub open spec fn spec_builtin_scan(
    rest: Seq<InstructionView>,
    all: Seq<InstructionView>,
    id: u32,
    fuel: nat,
) -> bool
    decreases fuel, 1int, rest.len(),
{
    if fuel == 0 || rest.len() == 0 {
        false
    } else {
        match rest[0] {
            InstructionView::Variable { result_type_id, result_id, .. } => if result_id == id {
                spec_is_builtin(all, result_type_id, (fuel - 1) as nat)
            } else {
                spec_builtin_scan(rest.drop_first(), all, id, fuel)
            },
            InstructionView::TypeArray { result_id, type_id, .. } => if result_id == id {
                spec_is_builtin(all, type_id, (fuel - 1) as nat)
            } else {
                spec_builtin_scan(rest.drop_first(), all, id, fuel)
            },
            InstructionView::TypeRuntimeArray { result_id, type_id } => if result_id == id {
                spec_is_builtin(all, type_id, (fuel - 1) as nat)
            } else {
                spec_builtin_scan(rest.drop_first(), all, id, fuel)
            },
            InstructionView::TypeStruct { result_id, member_types } => if result_id == id {
                if spec_any_builtin(all, member_types, fuel) {
                    true
                } else {
                    spec_builtin_scan(rest.drop_first(), all, id, fuel)
                }
            } else {
                spec_builtin_scan(rest.drop_first(), all, id, fuel)
            },
            InstructionView::TypePointer { result_id, type_id, .. } => if result_id == id {
                spec_is_builtin(all, type_id, (fuel - 1) as nat)
            } else {
                spec_builtin_scan(rest.drop_first(), all, id, fuel)
            },
            _ => spec_builtin_scan(rest.drop_first(), all, id, fuel),
        }
    }
}

/// Whether any of the member ids reads as built in.
pub open spec fn spec_any_builtin(all: Seq<InstructionView>, members: Seq<u32>, fuel: nat) -> bool
    decreases fuel, 0int, members.len(),
{
    if fuel == 0 || members.len() == 0 {
        false
    } else if spec_is_builtin(all, members[0], (fuel - 1) as nat) {
        true
    } else {
        spec_any_builtin(all, members.drop_first(), fuel)
    }
}

fn is_builtin_fueled(instructions: &Vec<Instruction>, id: u32, fuel: usize) -> (r: bool)
    ensures
        r == spec_is_builtin(
            instructions@.map_values(|ins: Instruction| ins@),
            id,
            fuel as nat,
        ),
    decreases fuel, 2int, 0int,
{
    let ghost all = instructions@.map_values(|ins: Instruction| ins@);
    let mut i: usize = 0;
    while i < instructions.len()
        invariant
            i <= all.len(),
            all == instructions@.map_values(|ins: Instruction| ins@),
            forall|k: int| 0 <= k < i ==> !is_builtin_decoration_for(#[trigger] all[k], id),
        decreases all.len() - i,
    {
        proof {
            assert(all[i as int] == instructions@[i as int]@);
        }
        match &instructions[i] {
            Instruction::Decorate { target_id, decoration, .. } => {
                if *target_id == id && *decoration == Decoration::BuiltIn {
                    return true;
                }
            },
            Instruction::MemberDecorate { target_id, decoration, .. } => {
                if *target_id == id && *decoration == Decoration::BuiltIn {
                    return true;
                }
            },
            _ => {},
        }
        i = i + 1;
    }
    proof {
        assert(!spec_has_builtin_decoration(all, id));
    }
    if fuel == 0 {
        return false;
    }
    let mut i: usize = 0;
    proof {
        assert(all.skip(0) =~= all);
    }
    while i < instructions.len()
        invariant
            i <= all.len(),
            fuel >= 1,
            all == instructions@.map_values(|ins: Instruction| ins@),
            !spec_has_builtin_decoration(all, id),
            spec_builtin_scan(all, all, id, fuel as nat) == spec_builtin_scan(
                all.skip(i as int),
                all,
                id,
                fuel as nat,
            ),
        decreases all.len() - i,
    {
        let ghost pre = all.skip(i as int);
        proof {
            assert(pre.drop_first() =~= all.skip(i + 1));
            assert(pre[0] == instructions@[i as int]@);
        }
        match &instructions[i] {
            Instruction::Variable { result_type_id, result_id, .. } => {
                if *result_id == id {
                    return is_builtin_fueled(instructions, *result_type_id, fuel - 1);
                }
            },
            Instruction::TypeArray { result_id, type_id, .. } => {
                if *result_id == id {
                    return is_builtin_fueled(instructions, *type_id, fuel - 1);
                }
            },
            Instruction::TypeRuntimeArray { result_id, type_id } => {
                if *result_id == id {
                    return is_builtin_fueled(instructions, *type_id, fuel - 1);
                }
            },
            Instruction::TypeStruct { result_id, member_types } => {
                if *result_id == id {
                    let mut j: usize = 0;
                    proof {
                        assert(member_types@.skip(0) =~= member_types@);
                    }
                    while j < member_types.len()
                        invariant
                            j <= member_types@.len(),
                            fuel >= 1,
                            all == instructions@.map_values(|ins: Instruction| ins@),
                            spec_any_builtin(all, member_types@, fuel as nat)
                                == spec_any_builtin(
                                all,
                                member_types@.skip(j as int),
                                fuel as nat,
                            ),
                        decreases member_types@.len() - j,
                    {
                        let ghost mpre = member_types@.skip(j as int);
                        proof {
                            assert(mpre.drop_first() =~= member_types@.skip(j + 1));
                            assert(mpre[0] == member_types@[j as int]);
                        }
                        if is_builtin_fueled(instructions, member_types[j], fuel - 1) {
                            return true;
                        }
                        j = j + 1;
                    }
                    proof {
                        assert(member_types@.skip(member_types@.len() as int) =~= Seq::<
                            u32,
                        >::empty());
                    }
                }
            },
            Instruction::TypePointer { result_id, type_id, .. } => {
                if *result_id == id {
                    return is_builtin_fueled(instructions, *type_id, fuel - 1);
                }
            },
            _ => {},
        }
        i = i + 1;
    }
    proof {
        assert(all.skip(all.len() as int) =~= Seq::<InstructionView>::empty());
    }
    false
}

/// Whether a `BuiltIn` decoration applies to `id`, directly or through the
/// type its declaration names. The underlying-type walk is bounded by the
/// instruction count, which only a cyclic document can exceed.
pub fn _is_builtin(doc: &Spirv, id: u32) -> (r: bool)
    ensures
        r == spec_is_builtin(doc@.instructions, id, doc@.instructions.len()),
{
    is_builtin_fueled(&doc.instructions, id, doc.instructions.len())
}

/// The first name the document gives an id; an id without a `Name`
/// instruction, or whose first name is empty, reads as `__unnamed`.
pub open spec fn spec_name_from_id(instrs: Seq<InstructionView>, searched: u32) -> Seq<char>
    decreases instrs.len(),
{
    if instrs.len() == 0 {
        "__unnamed"@
    } else {
        match instrs[0] {
            InstructionView::Name { target_id, name } => if target_id == searched {
                if name.len() > 0 {
                    name
                } else {
                    "__unnamed"@
                }
            } else {
                spec_name_from_id(instrs.drop_first(), searched)
            },
            _ => spec_name_from_id(instrs.drop_first(), searched),
        }
    }
}

/// Reads the display name of an id from the document.
pub fn name_from_id(doc: &Spirv, searched: u32) -> (r: String)
    ensures
        r@ == spec_name_from_id(doc@.instructions, searched),
{
    let ghost all = doc@.instructions;
    let mut i: usize = 0;
    proof {
        assert(all.skip(0) =~= all);
    }
    while i < doc.instructions.len()
        invariant
            i <= all.len(),
            all == doc@.instructions,
            spec_name_from_id(all, searched) == spec_name_from_id(all.skip(i as int), searched),
        decreases all.len() - i,
    {
        let ghost pre = all.skip(i as int);
        proof {
            assert(pre.drop_first() =~= all.skip(i + 1));
            assert(pre[0] == doc.instructions@[i as int]@);
        }
        match &doc.instructions[i] {
            Instruction::Name { target_id, name } => {
                if *target_id == searched {
                    if name.as_str().is_empty() {
                        return String::from_str("__unnamed");
                    }
                    return name.clone();
                }
            },
            _ => {},
        }
        i = i + 1;
    }
    proof {
        assert(all.skip(all.len() as int) =~= Seq::<InstructionView>::empty());
    }
    String::from_str("__unnamed")
}

/// The first name the document gives one member of an id, `__unnamed` when
/// there is none or it is empty.
pub open spec fn spec_member_name_from_id(
    instrs: Seq<InstructionView>,
    searched: u32,
    searched_member: u32,
) -> Seq<char>
    decreases instrs.len(),
{
    if instrs.len() == 0 {
        "__unnamed"@
    } else {
        match instrs[0] {
            InstructionView::MemberName { target_id, member, name } => if target_id == searched
                && member == searched_member {
                if name.len() > 0 {
                    name
                } else {
                    "__unnamed"@
                }
            } else {
                spec_member_name_from_id(instrs.drop_first(), searched, searched_member)
            },
            _ => spec_member_name_from_id(instrs.drop_first(), searched, searched_member),
        }
    }
}

/// Reads the display name of one member of a struct id from the document.
pub fn member_name_from_id(doc: &Spirv, searched: u32, searched_member: u32) -> (r: String)
    ensures
        r@ == spec_member_name_from_id(doc@.instructions, searched, searched_member),
{
    let ghost all = doc@.instructions;
    let mut i: usize = 0;
    proof {
        assert(all.skip(0) =~= all);
    }
    while i < doc.instructions.len()
        invariant
            i <= all.len(),
            all == doc@.instructions,
            spec_member_name_from_id(all, searched, searched_member) == spec_member_name_from_id(
                all.skip(i as int),
                searched,
                searched_member,
            ),
        decreases all.len() - i,
    {
        let ghost pre = all.skip(i as int);
        proof {
            assert(pre.drop_first() =~= all.skip(i + 1));
            assert(pre[0] == doc.instructions@[i as int]@);
        }
        match &doc.instructions[i] {
            Instruction::MemberName { target_id, member, name } => {
                if *target_id == searched && *member == searched_member {
                    if name.as_str().is_empty() {
                        return String::from_str("__unnamed");
                    }
                    return name.clone();
                }
            },
            _ => {},
        }
        i = i + 1;
    }
    proof {
        assert(all.skip(all.len() as int) =~= Seq::<InstructionView>::empty());
    }
    String::from_str("__unnamed")
}

} // verus!
