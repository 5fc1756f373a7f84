//! Specialization constants: constants whose values the host may override
//! at shader-load time, gathered with their `SpecId`, name, default kind and
//! host shape.

use vstd::prelude::*;

use crate::types::{RustType, RustTypeView, Type, TypeView};
use crate::{Error, ErrorView};

verus! {

/// How a specialization constant's default value is declared.
#[derive(Debug, Clone, PartialEq, Eq)]
pub enum SpecializationConstantKind {
    True,
    False,
    Scalar { default_value: Vec<u32> },
    Composite { default_value: Vec<u32> },
}

pub enum SpecializationConstantKindView {
    True,
    False,
    Scalar { default_value: Seq<u32> },
    Composite { default_value: Seq<u32> },
}

impl View for SpecializationConstantKind {
    type V = SpecializationConstantKindView;

    open spec fn view(&self) -> SpecializationConstantKindView {
        match self {
            SpecializationConstantKind::True => SpecializationConstantKindView::True,
            SpecializationConstantKind::False => SpecializationConstantKindView::False,
            SpecializationConstantKind::Scalar { default_value } => {
                SpecializationConstantKindView::Scalar { default_value: default_value@ }
            },
            SpecializationConstantKind::Composite { default_value } => {
                SpecializationConstantKindView::Composite { default_value: default_value@ }
            },
        }
    }
}

/// One specialization constant: the constant id its `SpecId` decoration
/// assigns, its name, its default, and the host shape its type maps to.
#[derive(Debug, Clone, PartialEq, Eq)]
pub struct SpecializationConstant {
    pub constant_id: u32,
    pub name: String,
    pub kind: SpecializationConstantKind,
    pub spirv_type: Type,
    pub rust_type: RustType,
    pub rust_size: usize,
}

pub struct SpecializationConstantView {
    pub constant_id: u32,
    pub name: Seq<char>,
    pub kind: SpecializationConstantKindView,
    pub spirv_type: TypeView,
    pub rust_type: RustTypeView,
    pub rust_size: usize,
}

impl View for SpecializationConstant {
    type V = SpecializationConstantView;

    open spec fn view(&self) -> SpecializationConstantView {
        SpecializationConstantView {
            constant_id: self.constant_id,
            name: self.name@,
            kind: self.kind@,
            spirv_type: self.spirv_type@,
            rust_type: self.rust_type@,
            rust_size: self.rust_size,
        }
    }
}

/// One entry of the packed specialization map: which constant sits at which
/// byte offset, and how many bytes it takes.
#[derive(Debug, Clone, Copy, PartialEq, Eq, Structural)]
pub struct SpecializationMapEntry {
    pub constant_id: u32,
    pub offset: usize,
    pub size: usize,
}

/// The packed layout of the constants from `offset` on: each constant sits
/// at the running offset, which then advances by its host size rounded up
/// to its own alignment. A constant with a zero size or alignment, or an
/// offset beyond the machine's range, is an `UnsizedType` error.
pub open spec fn spec_map_entries(consts: Seq<SpecializationConstantView>, offset: nat) -> Result<
    Seq<SpecializationMapEntry>,
    ErrorView,
>
    decreases consts.len(),
{
    if consts.len() == 0 {
        Ok(Seq::empty())
    } else {
        let c = consts[0];
        if c.rust_size == 0 || c.rust_type.alignment == 0 {
            Err(ErrorView::UnsizedType)
        } else {
            let align = c.rust_type.alignment as int;
            let next = align * (1 + (offset as int + c.rust_size as int - 1) / align);
            if next > usize::MAX {
                Err(ErrorView::UnsizedType)
            } else {
                let entry = SpecializationMapEntry {
                    constant_id: c.constant_id,
                    offset: offset as usize,
                    size: c.rust_size,
                };
                match spec_map_entries(consts.drop_first(), next as nat) {
                    Ok(rest) => Ok(seq![entry] + rest),
                    Err(e) => Err(e),
                }
            }
        }
    }
}

/// Writes the specialization map: one entry per constant, in the given
/// (sorted) order, with the packed byte offsets.
pub fn write(specialization_constants: &Vec<SpecializationConstant>) -> (r: Result<
    Vec<SpecializationMapEntry>,
    Error,
>)
    ensures
        match r {
            Ok(v) => spec_map_entries(
                specialization_constants@.map_values(|c: SpecializationConstant| c@),
                0,
            ) == Ok::<_, ErrorView>(v@),
            Err(e) => spec_map_entries(
                specialization_constants@.map_values(|c: SpecializationConstant| c@),
                0,
            ) == Err::<Seq<SpecializationMapEntry>, _>(e@),
        },
{
    let ghost all = specialization_constants@.map_values(|c: SpecializationConstant| c@);
    let mut acc: Vec<SpecializationMapEntry> = Vec::new();
    let mut offset: usize = 0;
    let mut i: usize = 0;
    proof {
        assert(all.skip(0) =~= all);
    }
    while i < specialization_constants.len()
        invariant
            i <= all.len(),
            all == specialization_constants@.map_values(|c: SpecializationConstant| c@),
            match spec_map_entries(all.skip(i as int), offset as nat) {
                Ok(rest) => spec_map_entries(all, 0) == Ok::<_, ErrorView>(acc@ + rest),
                Err(e) => spec_map_entries(all, 0) == Err::<Seq<SpecializationMapEntry>, _>(e),
            },
        decreases all.len() - i,
    {
        let ghost pre = all.skip(i as int);
        proof {
            assert(pre.drop_first() =~= all.skip(i + 1));
            assert(pre[0] == specialization_constants@[i as int]@);
        }
        let c = &specialization_constants[i];
        let size = c.rust_size;
        let align = c.rust_type.alignment;
        if size == 0 || align == 0 {
            return Err(Error::UnsizedType);
        }
        let q: u128 = ((offset as u128) + (size as u128) - 1) / (align as u128);
        proof {
            vstd::arithmetic::div_mod::lemma_fundamental_div_mod(
                offset as int + size as int - 1,
                align as int,
            );
            assert((align as int) * (1 + q as int) <= align as int + (offset as int + size as int
                - 1)) by (nonlinear_arith)
                requires
                    align as int >= 1,
                    q as int == (offset as int + size as int - 1) / (align as int),
                    (align as int) * (q as int) <= offset as int + size as int - 1,
            ;
        }
        let next: u128 = (align as u128) * (1 + q);
        if next > usize::MAX as u128 {
            return Err(Error::UnsizedType);
        }
        let entry = SpecializationMapEntry { constant_id: c.constant_id, offset, size };
        let ghost acc_before = acc@;
        let ghost align_spec = c.rust_type.alignment as int;
        let ghost next_spec = align_spec * (1 + (offset as int + size as int - 1) / align_spec);
        proof {
            assert(q as int == (offset as int + size as int - 1) / align_spec);
            assert(next as int == next_spec);
        }
        acc.push(entry);
        proof {
            if let Ok(rest) = spec_map_entries(all.skip(i + 1), next_spec as nat) {
                assert(acc_before + (seq![entry] + rest) =~= acc@ + rest);
            }
        }
        offset = next as usize;
        i = i + 1;
    }
    proof {
        assert(all.skip(all.len() as int) =~= Seq::<SpecializationConstantView>::empty());
        if let Ok(rest) = spec_map_entries(all.skip(all.len() as int), offset as nat) {
            assert(acc@ + rest =~= acc@);
        }
    }
    Ok(acc)
}

} // verus!
