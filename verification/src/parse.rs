//! The binary decoder: raw bytes in, a header and an ordered list of typed
//! instructions out.
//!
//! A module is a sequence of 32-bit words, little- or big-endian as the magic
//! number's byte order shows. After the five header words every instruction
//! starts with one word holding its total word count (high half) and opcode
//! (low half). Opcodes that reflection does not read are kept as
//! [`Instruction::Unknown`] rather than rejected.

use vstd::prelude::*;
use vstd::utf8::{decode_utf8, valid_utf8};

use crate::enums::{
    access_qualifier_from_word, access_qualifier_of_word, capability_from_word,
    capability_of_word, decoration_from_word, decoration_of_word, dim_from_word, dim_of_word,
    execution_mode_from_word, execution_mode_of_word, execution_model_from_word,
    execution_model_of_word, storage_class_from_word, storage_class_of_word, AccessQualifier,
    Capability, Decoration, Dim, ExecutionMode, ExecutionModel, ImageFormat, StorageClass,
};
use crate::enums::image_format_from_word;
use crate::enums::image_format_of_word;
use crate::text::string_from_utf8;
use crate::{opt_view, res_view, Error, ErrorView};

verus! {

broadcast use {vstd::std_specs::vec::group_vec_axioms, vstd::seq::group_seq_axioms};

/// The fixed magic number that opens every module.
pub const MAGIC: u32 = 0x0723_0203;

/// One decoded instruction. Only the opcode families that reflection reads
/// get a variant of their own; everything else is kept opaque.
#[derive(Debug, Clone, PartialEq, Eq)]
pub enum Instruction {
    Unknown { opcode: u16, operands: Vec<u32> },
    Capability { capability: Capability },
    Name { target_id: u32, name: String },
    MemberName { target_id: u32, member: u32, name: String },
    EntryPoint { execution: ExecutionModel, id: u32, name: String, interface: Vec<u32> },
    ExecutionMode { target_id: u32, mode: ExecutionMode, literals: Vec<u32> },
    Decorate { target_id: u32, decoration: Decoration, params: Vec<u32> },
    MemberDecorate { target_id: u32, member: u32, decoration: Decoration, params: Vec<u32> },
    TypeVoid { result_id: u32 },
    TypeBool { result_id: u32 },
    TypeInt { result_id: u32, width: u32, signedness: bool },
    TypeFloat { result_id: u32, width: u32 },
    TypeVector { result_id: u32, component_id: u32, count: u32 },
    TypeMatrix { result_id: u32, column_type_id: u32, column_count: u32 },
    TypeImage {
        result_id: u32,
        sampled_type_id: u32,
        dim: Dim,
        depth: Option<bool>,
        arrayed: bool,
        ms: bool,
        sampled: Option<bool>,
        format: ImageFormat,
        access: Option<AccessQualifier>,
    },
    TypeSampler { result_id: u32 },
    TypeSampledImage { result_id: u32, image_type_id: u32 },
    TypeArray { result_id: u32, type_id: u32, length_id: u32 },
    TypeRuntimeArray { result_id: u32, type_id: u32 },
    TypeStruct { result_id: u32, member_types: Vec<u32> },
    TypeOpaque { result_id: u32, name: String },
    TypePointer { result_id: u32, storage_class: StorageClass, type_id: u32 },
    Constant { result_type_id: u32, result_id: u32, data: Vec<u32> },
    SpecConstantTrue { result_type_id: u32, result_id: u32 },
    SpecConstantFalse { result_type_id: u32, result_id: u32 },
    SpecConstant { result_type_id: u32, result_id: u32, data: Vec<u32> },
    SpecConstantComposite { result_type_id: u32, result_id: u32, data: Vec<u32> },
    Variable {
        result_type_id: u32,
        result_id: u32,
        storage_class: StorageClass,
        initializer: Option<u32>,
    },
}

/// The mathematical shadow of [`Instruction`].
pub enum InstructionView {
    Unknown { opcode: u16, operands: Seq<u32> },
    Capability { capability: Capability },
    Name { target_id: u32, name: Seq<char> },
    MemberName { target_id: u32, member: u32, name: Seq<char> },
    EntryPoint { execution: ExecutionModel, id: u32, name: Seq<char>, interface: Seq<u32> },
    ExecutionMode { target_id: u32, mode: ExecutionMode, literals: Seq<u32> },
    Decorate { target_id: u32, decoration: Decoration, params: Seq<u32> },
    MemberDecorate { target_id: u32, member: u32, decoration: Decoration, params: Seq<u32> },
    TypeVoid { result_id: u32 },
    TypeBool { result_id: u32 },
    TypeInt { result_id: u32, width: u32, signedness: bool },
    TypeFloat { result_id: u32, width: u32 },
    TypeVector { result_id: u32, component_id: u32, count: u32 },
    TypeMatrix { result_id: u32, column_type_id: u32, column_count: u32 },
    TypeImage {
        result_id: u32,
        sampled_type_id: u32,
        dim: Dim,
        depth: Option<bool>,
        arrayed: bool,
        ms: bool,
        sampled: Option<bool>,
        format: ImageFormat,
        access: Option<AccessQualifier>,
    },
    TypeSampler { result_id: u32 },
    TypeSampledImage { result_id: u32, image_type_id: u32 },
    TypeArray { result_id: u32, type_id: u32, length_id: u32 },
    TypeRuntimeArray { result_id: u32, type_id: u32 },
    TypeStruct { result_id: u32, member_types: Seq<u32> },
    TypeOpaque { result_id: u32, name: Seq<char> },
    TypePointer { result_id: u32, storage_class: StorageClass, type_id: u32 },
    Constant { result_type_id: u32, result_id: u32, data: Seq<u32> },
    SpecConstantTrue { result_type_id: u32, result_id: u32 },
    SpecConstantFalse { result_type_id: u32, result_id: u32 },
    SpecConstant { result_type_id: u32, result_id: u32, data: Seq<u32> },
    SpecConstantComposite { result_type_id: u32, result_id: u32, data: Seq<u32> },
    Variable {
        result_type_id: u32,
        result_id: u32,
        storage_class: StorageClass,
        initializer: Option<u32>,
    },
}

impl View for Instruction {
    type V = InstructionView;

    open spec fn view(&self) -> InstructionView {
        match self {
            Instruction::Unknown { opcode, operands } => InstructionView::Unknown {
                opcode: *opcode,
                operands: operands@,
            },
            Instruction::Capability { capability } => InstructionView::Capability {
                capability: *capability,
            },
            Instruction::Name { target_id, name } => InstructionView::Name {
                target_id: *target_id,
                name: name@,
            },
            Instruction::MemberName { target_id, member, name } => InstructionView::MemberName {
                target_id: *target_id,
                member: *member,
                name: name@,
            },
            Instruction::EntryPoint { execution, id, name, interface } => {
                InstructionView::EntryPoint {
                    execution: *execution,
                    id: *id,
                    name: name@,
                    interface: interface@,
                }
            },
            Instruction::ExecutionMode { target_id, mode, literals } => {
                InstructionView::ExecutionMode {
                    target_id: *target_id,
                    mode: *mode,
                    literals: literals@,
                }
            },
            Instruction::Decorate { target_id, decoration, params } => InstructionView::Decorate {
                target_id: *target_id,
                decoration: *decoration,
                params: params@,
            },
            Instruction::MemberDecorate { target_id, member, decoration, params } => {
                InstructionView::MemberDecorate {
                    target_id: *target_id,
                    member: *member,
                    decoration: *decoration,
                    params: params@,
                }
            },
            Instruction::TypeVoid { result_id } => InstructionView::TypeVoid {
                result_id: *result_id,
            },
            Instruction::TypeBool { result_id } => InstructionView::TypeBool {
                result_id: *result_id,
            },
            Instruction::TypeInt { result_id, width, signedness } => InstructionView::TypeInt {
                result_id: *result_id,
                width: *width,
                signedness: *signedness,
            },
            Instruction::TypeFloat { result_id, width } => InstructionView::TypeFloat {
                result_id: *result_id,
                width: *width,
            },
            Instruction::TypeVector { result_id, component_id, count } => {
                InstructionView::TypeVector {
                    result_id: *result_id,
                    component_id: *component_id,
                    count: *count,
                }
            },
            Instruction::TypeMatrix { result_id, column_type_id, column_count } => {
                InstructionView::TypeMatrix {
                    result_id: *result_id,
                    column_type_id: *column_type_id,
                    column_count: *column_count,
                }
            },
            Instruction::TypeImage {
                result_id,
                sampled_type_id,
                dim,
                depth,
                arrayed,
                ms,
                sampled,
                format,
                access,
            } => InstructionView::TypeImage {
                result_id: *result_id,
                sampled_type_id: *sampled_type_id,
                dim: *dim,
                depth: *depth,
                arrayed: *arrayed,
                ms: *ms,
                sampled: *sampled,
                format: *format,
                access: *access,
            },
            Instruction::TypeSampler { result_id } => InstructionView::TypeSampler {
                result_id: *result_id,
            },
            Instruction::TypeSampledImage { result_id, image_type_id } => {
                InstructionView::TypeSampledImage {
                    result_id: *result_id,
                    image_type_id: *image_type_id,
                }
            },
            Instruction::TypeArray { result_id, type_id, length_id } => {
                InstructionView::TypeArray {
                    result_id: *result_id,
                    type_id: *type_id,
                    length_id: *length_id,
                }
            },
            Instruction::TypeRuntimeArray { result_id, type_id } => {
                InstructionView::TypeRuntimeArray {
                    result_id: *result_id,
                    type_id: *type_id,
                }
            },
            Instruction::TypeStruct { result_id, member_types } => InstructionView::TypeStruct {
                result_id: *result_id,
                member_types: member_types@,
            },
            Instruction::TypeOpaque { result_id, name } => InstructionView::TypeOpaque {
                result_id: *result_id,
                name: name@,
            },
            Instruction::TypePointer { result_id, storage_class, type_id } => {
                InstructionView::TypePointer {
                    result_id: *result_id,
                    storage_class: *storage_class,
                    type_id: *type_id,
                }
            },
            Instruction::Constant { result_type_id, result_id, data } => {
                InstructionView::Constant {
                    result_type_id: *result_type_id,
                    result_id: *result_id,
                    data: data@,
                }
            },
            Instruction::SpecConstantTrue { result_type_id, result_id } => {
                InstructionView::SpecConstantTrue {
                    result_type_id: *result_type_id,
                    result_id: *result_id,
                }
            },
            Instruction::SpecConstantFalse { result_type_id, result_id } => {
                InstructionView::SpecConstantFalse {
                    result_type_id: *result_type_id,
                    result_id: *result_id,
                }
            },
            Instruction::SpecConstant { result_type_id, result_id, data } => {
                InstructionView::SpecConstant {
                    result_type_id: *result_type_id,
                    result_id: *result_id,
                    data: data@,
                }
            },
            Instruction::SpecConstantComposite { result_type_id, result_id, data } => {
                InstructionView::SpecConstantComposite {
                    result_type_id: *result_type_id,
                    result_id: *result_id,
                    data: data@,
                }
            },
            Instruction::Variable { result_type_id, result_id, storage_class, initializer } => {
                InstructionView::Variable {
                    result_type_id: *result_type_id,
                    result_id: *result_id,
                    storage_class: *storage_class,
                    initializer: *initializer,
                }
            },
        }
    }
}

/// A decoded module: the header's version and bound, and the instructions
/// in document order.
#[derive(Debug, Clone, PartialEq, Eq)]
pub struct Spirv {
    pub version_major: u32,
    pub version_minor: u32,
    pub bound: u32,
    pub instructions: Vec<Instruction>,
}

pub struct SpirvView {
    pub version_major: u32,
    pub version_minor: u32,
    pub bound: u32,
    pub instructions: Seq<InstructionView>,
}

impl View for Spirv {
    type V = SpirvView;

    open spec fn view(&self) -> SpirvView {
        SpirvView {
            version_major: self.version_major,
            version_minor: self.version_minor,
            bound: self.bound,
            instructions: self.instructions@.map_values(|i: Instruction| i@),
        }
    }
}

/// The word that four consecutive bytes spell, in the given byte order.
pub open spec fn word_at(bytes: Seq<u8>, i: int, big_endian: bool) -> u32 {
    let b0 = bytes[4 * i] as u32;
    let b1 = bytes[4 * i + 1] as u32;
    let b2 = bytes[4 * i + 2] as u32;
    let b3 = bytes[4 * i + 3] as u32;
    if big_endian {
        (b0 << 24) | (b1 << 16) | (b2 << 8) | b3
    } else {
        b0 | (b1 << 8) | (b2 << 16) | (b3 << 24)
    }
}

/// The whole byte buffer as words; a trailing partial word is dropped.
pub open spec fn words_of(bytes: Seq<u8>, big_endian: bool) -> Seq<u32> {
    Seq::new((bytes.len() / 4) as nat, |i: int| word_at(bytes, i, big_endian))
}

/// Reads the words out of the byte buffer.
pub fn collect_words(bytes: &[u8], big_endian: bool) -> (r: Vec<u32>)
    requires
        bytes@.len() % 4 == 0,
    ensures
        r@ == words_of(bytes@, big_endian),
{
    let n = bytes.len() / 4;
    let mut words: Vec<u32> = Vec::new();
    let mut i: usize = 0;
    while i < n
        invariant
            i <= n,
            n == bytes@.len() / 4,
            words@.len() == i,
            forall|j: int| 0 <= j < i ==> words@[j] == word_at(bytes@, j, big_endian),
        decreases n - i,
    {
        let b0 = bytes[4 * i] as u32;
        let b1 = bytes[4 * i + 1] as u32;
        let b2 = bytes[4 * i + 2] as u32;
        let b3 = bytes[4 * i + 3] as u32;
        let w = if big_endian {
            (b0 << 24) | (b1 << 16) | (b2 << 8) | b3
        } else {
            b0 | (b1 << 8) | (b2 << 16) | (b3 << 24)
        };
        words.push(w);
        i = i + 1;
    }
    proof {
        assert(words@ =~= words_of(bytes@, big_endian));
    }
    words
}

/// The bytes of the NUL-terminated string starting at word `i`, and the
/// index of the word after it. `None` when the words run out before a NUL.
pub open spec fn string_bytes_at(words: Seq<u32>, i: int) -> Option<(Seq<u8>, int)>
    decreases words.len() - i,
{
    if i < 0 || i >= words.len() {
        None
    } else {
        let w = words[i];
        let b0 = (w & 0xFF) as u8;
        let b1 = ((w >> 8) & 0xFF) as u8;
        let b2 = ((w >> 16) & 0xFF) as u8;
        let b3 = ((w >> 24) & 0xFF) as u8;
        if b0 == 0 {
            Some((Seq::empty(), i + 1))
        } else if b1 == 0 {
            Some((seq![b0], i + 1))
        } else if b2 == 0 {
            Some((seq![b0, b1], i + 1))
        } else if b3 == 0 {
            Some((seq![b0, b1, b2], i + 1))
        } else {
            match string_bytes_at(words, i + 1) {
                Some((s, j)) => Some((seq![b0, b1, b2, b3] + s, j)),
                None => None,
            }
        }
    }
}

/// The decoded string starting at word `i` and the index after it; `None`
/// when no NUL arrives or the bytes are not valid UTF-8.
pub open spec fn string_at_spec(words: Seq<u32>, i: int) -> Option<(Seq<char>, int)> {
    match string_bytes_at(words, i) {
        Some((bytes, j)) => if valid_utf8(bytes) {
            Some((decode_utf8(bytes), j))
        } else {
            None
        },
        None => None,
    }
}

fn make_string(bytes: Vec<u8>, next: usize) -> (r: Option<(String, usize)>)
    ensures
        r is Some <==> valid_utf8(bytes@),
        r matches Some((s, j)) ==> s@ == decode_utf8(bytes@) && j == next,
{
    match string_from_utf8(bytes) {
        Some(s) => Some((s, next)),
        None => None,
    }
}

/// Decodes the NUL-terminated string starting at word `start`.
pub fn string_at(words: &Vec<u32>, start: usize) -> (r: Option<(String, usize)>)
    ensures
        match r {
            Some((s, j)) => string_at_spec(words@, start as int) == Some((s@, j as int))
                && start < words@.len() && start < j <= words@.len(),
            None => string_at_spec(words@, start as int) is None,
        },
{
    let mut bytes: Vec<u8> = Vec::new();
    let mut i: usize = start;
    while i < words.len()
        invariant
            start <= i,
            match string_bytes_at(words@, i as int) {
                Some((s, j)) => string_bytes_at(words@, start as int) == Some((bytes@ + s, j)),
                None => string_bytes_at(words@, start as int) is None,
            },
        decreases words@.len() - i,
    {
        let ghost prev = bytes@;
        let w = words[i];
        let b0 = (w & 0xFF) as u8;
        let b1 = ((w >> 8) & 0xFF) as u8;
        let b2 = ((w >> 16) & 0xFF) as u8;
        let b3 = ((w >> 24) & 0xFF) as u8;
        if b0 == 0 {
            proof {
                assert(bytes@ + Seq::<u8>::empty() =~= bytes@);
            }
            return make_string(bytes, i + 1);
        }
        bytes.push(b0);
        if b1 == 0 {
            proof {
                assert(prev + seq![b0] =~= bytes@);
            }
            return make_string(bytes, i + 1);
        }
        bytes.push(b1);
        if b2 == 0 {
            proof {
                assert(prev + seq![b0, b1] =~= bytes@);
            }
            return make_string(bytes, i + 1);
        }
        bytes.push(b2);
        if b3 == 0 {
            proof {
                assert(prev + seq![b0, b1, b2] =~= bytes@);
            }
            return make_string(bytes, i + 1);
        }
        bytes.push(b3);
        proof {
            if let Some((s, j)) = string_bytes_at(words@, i + 1) {
                assert(prev + (seq![b0, b1, b2, b3] + s) =~= bytes@ + s);
            }
        }
        i = i + 1;
    }
    None
}

/// The given range of `v`, copied.
pub fn copy_range(v: &Vec<u32>, from: usize, to: usize) -> (r: Vec<u32>)
    requires
        from <= to <= v@.len(),
    ensures
        r@ == v@.subrange(from as int, to as int),
{
    let mut out: Vec<u32> = Vec::new();
    let mut i: usize = from;
    while i < to
        invariant
            from <= i <= to,
            out@.len() == i - from,
            forall|j: int| 0 <= j < out@.len() ==> out@[j] == v@[from + j],
        decreases to - i,
    {
        out.push(v[i]);
        i = i + 1;
    }
    proof {
        assert(out@ =~= v@.subrange(from as int, to as int));
    }
    out
}

/// What one instruction's operand words mean under the given opcode.
/// `None` stands for a malformed instruction: a recognized opcode whose
/// operands do not fit its shape.
pub open spec fn decode_instruction_spec(opcode: u32, ops: Seq<u32>) -> Option<InstructionView> {
    let n = ops.len() as int;
    if opcode == 17 {
        if n == 1 {
            Some(InstructionView::Capability { capability: capability_of_word(ops[0]) })
        } else {
            None
        }
    } else if opcode == 5 {
        match string_at_spec(ops, 1) {
            Some((name, j)) => if j == n {
                Some(InstructionView::Name { target_id: ops[0], name })
            } else {
                None
            },
            None => None,
        }
    } else if opcode == 6 {
        match string_at_spec(ops, 2) {
            Some((name, j)) => if j == n {
                Some(InstructionView::MemberName { target_id: ops[0], member: ops[1], name })
            } else {
                None
            },
            None => None,
        }
    } else if opcode == 15 {
        match string_at_spec(ops, 2) {
            Some((name, j)) => Some(InstructionView::EntryPoint {
                execution: execution_model_of_word(ops[0]),
                id: ops[1],
                name,
                interface: ops.subrange(j, n),
            }),
            None => None,
        }
    } else if opcode == 16 {
        if n >= 2 {
            Some(InstructionView::ExecutionMode {
                target_id: ops[0],
                mode: execution_mode_of_word(ops[1]),
                literals: ops.subrange(2, n),
            })
        } else {
            None
        }
    } else if opcode == 71 {
        if n >= 2 {
            Some(InstructionView::Decorate {
                target_id: ops[0],
                decoration: decoration_of_word(ops[1]),
                params: ops.subrange(2, n),
            })
        } else {
            None
        }
    } else if opcode == 72 {
        if n >= 3 {
            Some(InstructionView::MemberDecorate {
                target_id: ops[0],
                member: ops[1],
                decoration: decoration_of_word(ops[2]),
                params: ops.subrange(3, n),
            })
        } else {
            None
        }
    } else if opcode == 19 {
        if n == 1 {
            Some(InstructionView::TypeVoid { result_id: ops[0] })
        } else {
            None
        }
    } else if opcode == 20 {
        if n == 1 {
            Some(InstructionView::TypeBool { result_id: ops[0] })
        } else {
            None
        }
    } else if opcode == 21 {
        if n == 3 {
            Some(InstructionView::TypeInt {
                result_id: ops[0],
                width: ops[1],
                signedness: ops[2] != 0,
            })
        } else {
            None
        }
    } else if opcode == 22 {
        if n == 2 {
            Some(InstructionView::TypeFloat { result_id: ops[0], width: ops[1] })
        } else {
            None
        }
    } else if opcode == 23 {
        if n == 3 {
            Some(InstructionView::TypeVector {
                result_id: ops[0],
                component_id: ops[1],
                count: ops[2],
            })
        } else {
            None
        }
    } else if opcode == 24 {
        if n == 3 {
            Some(InstructionView::TypeMatrix {
                result_id: ops[0],
                column_type_id: ops[1],
                column_count: ops[2],
            })
        } else {
            None
        }
    } else if opcode == 25 {
        if (n == 8 || n == 9) && (ops[3] == 0 || ops[3] == 1 || ops[3] == 2) && (ops[6] == 0
            || ops[6] == 1 || ops[6] == 2) {
            Some(InstructionView::TypeImage {
                result_id: ops[0],
                sampled_type_id: ops[1],
                dim: dim_of_word(ops[2]),
                depth: if ops[3] == 0 {
                    Some(false)
                } else if ops[3] == 1 {
                    Some(true)
                } else {
                    None
                },
                arrayed: ops[4] != 0,
                ms: ops[5] != 0,
                sampled: if ops[6] == 0 {
                    None
                } else if ops[6] == 1 {
                    Some(true)
                } else {
                    Some(false)
                },
                format: image_format_of_word(ops[7]),
                access: if n == 9 {
                    Some(access_qualifier_of_word(ops[8]))
                } else {
                    None
                },
            })
        } else {
            None
        }
    } else if opcode == 26 {
        if n == 1 {
            Some(InstructionView::TypeSampler { result_id: ops[0] })
        } else {
            None
        }
    } else if opcode == 27 {
        if n == 2 {
            Some(InstructionView::TypeSampledImage { result_id: ops[0], image_type_id: ops[1] })
        } else {
            None
        }
    } else if opcode == 28 {
        if n == 3 {
            Some(InstructionView::TypeArray {
                result_id: ops[0],
                type_id: ops[1],
                length_id: ops[2],
            })
        } else {
            None
        }
    } else if opcode == 29 {
        if n == 2 {
            Some(InstructionView::TypeRuntimeArray { result_id: ops[0], type_id: ops[1] })
        } else {
            None
        }
    } else if opcode == 30 {
        if n >= 1 {
            Some(InstructionView::TypeStruct {
                result_id: ops[0],
                member_types: ops.subrange(1, n),
            })
        } else {
            None
        }
    } else if opcode == 31 {
        match string_at_spec(ops, 1) {
            Some((name, j)) => if j == n {
                Some(InstructionView::TypeOpaque { result_id: ops[0], name })
            } else {
                None
            },
            None => None,
        }
    } else if opcode == 32 {
        if n == 3 {
            Some(InstructionView::TypePointer {
                result_id: ops[0],
                storage_class: storage_class_of_word(ops[1]),
                type_id: ops[2],
            })
        } else {
            None
        }
    } else if opcode == 43 {
        if n >= 2 {
            Some(InstructionView::Constant {
                result_type_id: ops[0],
                result_id: ops[1],
                data: ops.subrange(2, n),
            })
        } else {
            None
        }
    } else if opcode == 48 {
        if n == 2 {
            Some(InstructionView::SpecConstantTrue { result_type_id: ops[0], result_id: ops[1] })
        } else {
            None
        }
    } else if opcode == 49 {
        if n == 2 {
            Some(InstructionView::SpecConstantFalse { result_type_id: ops[0], result_id: ops[1] })
        } else {
            None
        }
    } else if opcode == 50 {
        if n >= 2 {
            Some(InstructionView::SpecConstant {
                result_type_id: ops[0],
                result_id: ops[1],
                data: ops.subrange(2, n),
            })
        } else {
            None
        }
    } else if opcode == 51 {
        if n >= 2 {
            Some(InstructionView::SpecConstantComposite {
                result_type_id: ops[0],
                result_id: ops[1],
                data: ops.subrange(2, n),
            })
        } else {
            None
        }
    } else if opcode == 59 {
        if n == 3 || n == 4 {
            Some(InstructionView::Variable {
                result_type_id: ops[0],
                result_id: ops[1],
                storage_class: storage_class_of_word(ops[2]),
                initializer: if n == 4 {
                    Some(ops[3])
                } else {
                    None
                },
            })
        } else {
            None
        }
    } else {
        Some(InstructionView::Unknown { opcode: opcode as u16, operands: ops })
    }
}

/// Decodes one instruction from its opcode and operand words.
pub fn decode_instruction(opcode: u32, ops: Vec<u32>) -> (r: Option<Instruction>)
    requires
        opcode < 0x10000,
    ensures
        opt_view(r) == decode_instruction_spec(opcode, ops@),
{
    let n = ops.len();
    if opcode == 17 {
        if n == 1 {
            Some(Instruction::Capability { capability: capability_from_word(ops[0]) })
        } else {
            None
        }
    } else if opcode == 5 {
        match string_at(&ops, 1) {
            Some((name, j)) => if j == n && n >= 1 {
                Some(Instruction::Name { target_id: ops[0], name })
            } else {
                None
            },
            None => None,
        }
    } else if opcode == 6 {
        match string_at(&ops, 2) {
            Some((name, j)) => if j == n && n >= 2 {
                Some(Instruction::MemberName { target_id: ops[0], member: ops[1], name })
            } else {
                None
            },
            None => None,
        }
    } else if opcode == 15 {
        match string_at(&ops, 2) {
            Some((name, j)) => {
                let interface = copy_range(&ops, j, n);
                Some(Instruction::EntryPoint {
                    execution: execution_model_from_word(ops[0]),
                    id: ops[1],
                    name,
                    interface,
                })
            },
            None => None,
        }
    } else if opcode == 16 {
        if n >= 2 {
            let literals = copy_range(&ops, 2, n);
            Some(Instruction::ExecutionMode {
                target_id: ops[0],
                mode: execution_mode_from_word(ops[1]),
                literals,
            })
        } else {
            None
        }
    } else if opcode == 71 {
        if n >= 2 {
            let params = copy_range(&ops, 2, n);
            Some(Instruction::Decorate {
                target_id: ops[0],
                decoration: decoration_from_word(ops[1]),
                params,
            })
        } else {
            None
        }
    } else if opcode == 72 {
        if n >= 3 {
            let params = copy_range(&ops, 3, n);
            Some(Instruction::MemberDecorate {
                target_id: ops[0],
                member: ops[1],
                decoration: decoration_from_word(ops[2]),
                params,
            })
        } else {
            None
        }
    } else if opcode == 19 {
        if n == 1 {
            Some(Instruction::TypeVoid { result_id: ops[0] })
        } else {
            None
        }
    } else if opcode == 20 {
        if n == 1 {
            Some(Instruction::TypeBool { result_id: ops[0] })
        } else {
            None
        }
    } else if opcode == 21 {
        if n == 3 {
            Some(Instruction::TypeInt {
                result_id: ops[0],
                width: ops[1],
                signedness: ops[2] != 0,
            })
        } else {
            None
        }
    } else if opcode == 22 {
        if n == 2 {
            Some(Instruction::TypeFloat { result_id: ops[0], width: ops[1] })
        } else {
            None
        }
    } else if opcode == 23 {
        if n == 3 {
            Some(Instruction::TypeVector {
                result_id: ops[0],
                component_id: ops[1],
                count: ops[2],
            })
        } else {
            None
        }
    } else if opcode == 24 {
        if n == 3 {
            Some(Instruction::TypeMatrix {
                result_id: ops[0],
                column_type_id: ops[1],
                column_count: ops[2],
            })
        } else {
            None
        }
    } else if opcode == 25 {
        if (n == 8 || n == 9) && (ops[3] == 0 || ops[3] == 1 || ops[3] == 2) && (ops[6] == 0
            || ops[6] == 1 || ops[6] == 2) {
            Some(Instruction::TypeImage {
                result_id: ops[0],
                sampled_type_id: ops[1],
                dim: dim_from_word(ops[2]),
                depth: if ops[3] == 0 {
                    Some(false)
                } else if ops[3] == 1 {
                    Some(true)
                } else {
                    None
                },
                arrayed: ops[4] != 0,
                ms: ops[5] != 0,
                sampled: if ops[6] == 0 {
                    None
                } else if ops[6] == 1 {
                    Some(true)
                } else {
                    Some(false)
                },
                format: image_format_from_word(ops[7]),
                access: if n == 9 {
                    Some(access_qualifier_from_word(ops[8]))
                } else {
                    None
                },
            })
        } else {
            None
        }
    } else if opcode == 26 {
        if n == 1 {
            Some(Instruction::TypeSampler { result_id: ops[0] })
        } else {
            None
        }
    } else if opcode == 27 {
        if n == 2 {
            Some(Instruction::TypeSampledImage { result_id: ops[0], image_type_id: ops[1] })
        } else {
            None
        }
    } else if opcode == 28 {
        if n == 3 {
            Some(Instruction::TypeArray {
                result_id: ops[0],
                type_id: ops[1],
                length_id: ops[2],
            })
        } else {
            None
        }
    } else if opcode == 29 {
        if n == 2 {
            Some(Instruction::TypeRuntimeArray { result_id: ops[0], type_id: ops[1] })
        } else {
            None
        }
    } else if opcode == 30 {
        if n >= 1 {
            let member_types = copy_range(&ops, 1, n);
            Some(Instruction::TypeStruct { result_id: ops[0], member_types })
        } else {
            None
        }
    } else if opcode == 31 {
        match string_at(&ops, 1) {
            Some((name, j)) => if j == n && n >= 1 {
                Some(Instruction::TypeOpaque { result_id: ops[0], name })
            } else {
                None
            },
            None => None,
        }
    } else if opcode == 32 {
        if n == 3 {
            Some(Instruction::TypePointer {
                result_id: ops[0],
                storage_class: storage_class_from_word(ops[1]),
                type_id: ops[2],
            })
        } else {
            None
        }
    } else if opcode == 43 {
        if n >= 2 {
            let data = copy_range(&ops, 2, n);
            Some(Instruction::Constant { result_type_id: ops[0], result_id: ops[1], data })
        } else {
            None
        }
    } else if opcode == 48 {
        if n == 2 {
            Some(Instruction::SpecConstantTrue { result_type_id: ops[0], result_id: ops[1] })
        } else {
            None
        }
    } else if opcode == 49 {
        if n == 2 {
            Some(Instruction::SpecConstantFalse { result_type_id: ops[0], result_id: ops[1] })
        } else {
            None
        }
    } else if opcode == 50 {
        if n >= 2 {
            let data = copy_range(&ops, 2, n);
            Some(Instruction::SpecConstant { result_type_id: ops[0], result_id: ops[1], data })
        } else {
            None
        }
    } else if opcode == 51 {
        if n >= 2 {
            let data = copy_range(&ops, 2, n);
            Some(Instruction::SpecConstantComposite {
                result_type_id: ops[0],
                result_id: ops[1],
                data,
            })
        } else {
            None
        }
    } else if opcode == 59 {
        if n == 3 || n == 4 {
            Some(Instruction::Variable {
                result_type_id: ops[0],
                result_id: ops[1],
                storage_class: storage_class_from_word(ops[2]),
                initializer: if n == 4 {
                    Some(ops[3])
                } else {
                    None
                },
            })
        } else {
            None
        }
    } else {
        Some(Instruction::Unknown { opcode: opcode as u16, operands: ops })
    }
}

/// The instruction stream starting at word `i`: each instruction's first
/// word carries the word count (high half) and opcode (low half).
pub open spec fn decode_instructions_spec(words: Seq<u32>, i: int) -> Result<
    Seq<InstructionView>,
    ErrorView,
>
    decreases words.len() - i,
{
    if i >= words.len() {
        Ok(Seq::empty())
    } else {
        let w = words[i];
        let wc = (w >> 16) as int;
        let opcode = w & 0xFFFF;
        if wc == 0 || i + wc > words.len() {
            Err(ErrorView::MalformedBinary)
        } else {
            match decode_instruction_spec(opcode, words.subrange(i + 1, i + wc)) {
                None => Err(ErrorView::MalformedBinary),
                Some(instr) => match decode_instructions_spec(words, i + wc) {
                    Ok(rest) => Ok(seq![instr] + rest),
                    Err(e) => Err(e),
                },
            }
        }
    }
}

/// Decodes every instruction from word `start` to the end of the buffer.
pub fn decode_instructions(words: &Vec<u32>, start: usize) -> (r: Result<Vec<Instruction>, Error>)
    ensures
        match r {
            Ok(v) => decode_instructions_spec(words@, start as int) == Ok::<_, ErrorView>(
                v@.map_values(|ins: Instruction| ins@),
            ),
            Err(e) => decode_instructions_spec(words@, start as int) == Err::<
                Seq<InstructionView>,
                _,
            >(e@),
        },
{
    let mut out: Vec<Instruction> = Vec::new();
    let mut i: usize = start;
    while i < words.len()
        invariant
            start <= i,
            match decode_instructions_spec(words@, i as int) {
                Ok(rest) => decode_instructions_spec(words@, start as int) == Ok::<_, ErrorView>(
                    out@.map_values(|ins: Instruction| ins@) + rest,
                ),
                Err(e) => decode_instructions_spec(words@, start as int) == Err::<
                    Seq<InstructionView>,
                    _,
                >(e),
            },
        decreases words@.len() - i,
    {
        let ghost old_out = out@;
        let w = words[i];
        let wc = (w >> 16) as usize;
        let opcode = w & 0xFFFF;
        if wc == 0 || wc > words.len() - i {
            return Err(Error::MalformedBinary);
        }
        let ops = copy_range(words, i + 1, i + wc);
        proof {
            assert(w & 0xFFFF < 0x10000) by (bit_vector);
        }
        match decode_instruction(opcode, ops) {
            None => {
                return Err(Error::MalformedBinary);
            },
            Some(instr) => {
                out.push(instr);
                proof {
                    assert(out@.map_values(|ins: Instruction| ins@) =~= old_out.map_values(
                        |ins: Instruction| ins@,
                    ) + seq![out@[out@.len() - 1]@]);
                    if let Ok(rest) = decode_instructions_spec(words@, (i + wc) as int) {
                        assert(old_out.map_values(|ins: Instruction| ins@) + (seq![
                            out@[out@.len() - 1]@,
                        ] + rest) =~= out@.map_values(|ins: Instruction| ins@) + rest);
                    }
                }
                i = i + wc;
            },
        }
    }
    proof {
        assert(out@.map_values(|ins: Instruction| ins@) + Seq::<InstructionView>::empty()
            =~= out@.map_values(|ins: Instruction| ins@));
    }
    Ok(out)
}

/// What the whole byte buffer means: the header checked and every
/// instruction decoded, under the byte order the magic number shows.
pub open spec fn parse_spirv_spec(bytes: Seq<u8>) -> Result<SpirvView, ErrorView> {
    if bytes.len() % 4 != 0 || bytes.len() < 20 {
        Err(ErrorView::MalformedBinary)
    } else if word_at(bytes, 0, false) == MAGIC {
        parse_words_spec(words_of(bytes, false))
    } else if word_at(bytes, 0, true) == MAGIC {
        parse_words_spec(words_of(bytes, true))
    } else {
        Err(ErrorView::MalformedBinary)
    }
}

/// The module a header-checked word sequence spells.
pub open spec fn parse_words_spec(words: Seq<u32>) -> Result<SpirvView, ErrorView> {
    match decode_instructions_spec(words, 5) {
        Ok(instrs) => Ok(SpirvView {
            version_major: (words[1] >> 16) & 0xFF,
            version_minor: (words[1] >> 8) & 0xFF,
            bound: words[3],
            instructions: instrs,
        }),
        Err(e) => Err(e),
    }
}

/// Decodes a module from its bytes: checks the magic number and header,
/// then decodes the instruction stream. Fails with `MalformedBinary` when
/// the magic number is wrong, the buffer length is not a whole number of
/// words, the header is short, or an instruction is truncated or malformed.
pub fn parse_spirv(data: &[u8]) -> (r: Result<Spirv, Error>)
    ensures
        res_view(r) == parse_spirv_spec(data@),
{
    if data.len() % 4 != 0 || data.len() < 20 {
        return Err(Error::MalformedBinary);
    }
    let w0_le = (data[0] as u32) | ((data[1] as u32) << 8) | ((data[2] as u32) << 16) | ((
    data[3] as u32) << 24);
    let w0_be = ((data[0] as u32) << 24) | ((data[1] as u32) << 16) | ((data[2] as u32) << 8) | (
    data[3] as u32);
    let big_endian = if w0_le == MAGIC {
        false
    } else if w0_be == MAGIC {
        true
    } else {
        return Err(Error::MalformedBinary);
    };
    let words = collect_words(data, big_endian);
    let version = words[1];
    let bound = words[3];
    match decode_instructions(&words, 5) {
        Ok(instructions) => Ok(Spirv {
            version_major: (version >> 16) & 0xFF,
            version_minor: (version >> 8) & 0xFF,
            bound,
            instructions,
        }),
        Err(e) => Err(e),
    }
}

} // verus!
