//! The symbol tables: one linear pass over the instruction stream yields the
//! capability set, the name table, the decoration tables, the variable table,
//! the execution-mode list and the raw constant table.
//!
//! Every table is a vector of entries in document order; lookups follow
//! overwriting-map semantics (a later entry for the same key wins, names
//! must be unique). Everything later stages read is keyed by id through these
//! tables; a missing id surfaces as an explicit error there, never as a
//! silent default.

use vstd::prelude::*;

use crate::enums::{Capability, Decoration, ExecutionMode, StorageClass};
use crate::parse::{Instruction, InstructionView};
use crate::{Error, ErrorView};

verus! {

broadcast use {vstd::std_specs::vec::group_vec_axioms, vstd::seq::group_seq_axioms};

/// One whole-object decoration: `target_id` carries `decoration` with the
/// given parameter words.
#[derive(Debug, Clone, PartialEq, Eq)]
pub struct DecorationEntry {
    pub target_id: u32,
    pub decoration: Decoration,
    pub params: Vec<u32>,
}

pub struct DecorationEntryView {
    pub target_id: u32,
    pub decoration: Decoration,
    pub params: Seq<u32>,
}

impl View for DecorationEntry {
    type V = DecorationEntryView;

    open spec fn view(&self) -> DecorationEntryView {
        DecorationEntryView {
            target_id: self.target_id,
            decoration: self.decoration,
            params: self.params@,
        }
    }
}

/// One per-member decoration of a struct type.
#[derive(Debug, Clone, PartialEq, Eq)]
pub struct MemberDecorationEntry {
    pub target_id: u32,
    pub member: u32,
    pub decoration: Decoration,
    pub params: Vec<u32>,
}

pub struct MemberDecorationEntryView {
    pub target_id: u32,
    pub member: u32,
    pub decoration: Decoration,
    pub params: Seq<u32>,
}

impl View for MemberDecorationEntry {
    type V = MemberDecorationEntryView;

    open spec fn view(&self) -> MemberDecorationEntryView {
        MemberDecorationEntryView {
            target_id: self.target_id,
            member: self.member,
            decoration: self.decoration,
            params: self.params@,
        }
    }
}

/// The capability set in first-occurrence order, without repeats.
pub open spec fn spec_capabilities(instrs: Seq<InstructionView>, acc: Seq<Capability>) -> Seq<
    Capability,
>
    decreases instrs.len(),
{
    if instrs.len() == 0 {
        acc
    } else {
        let acc2 = match instrs[0] {
            InstructionView::Capability { capability } => if acc.contains(capability) {
                acc
            } else {
                acc.push(capability)
            },
            _ => acc,
        };
        spec_capabilities(instrs.drop_first(), acc2)
    }
}

fn capability_seen(acc: &Vec<Capability>, c: Capability) -> (r: bool)
    ensures
        r == acc@.contains(c),
{
    let mut i: usize = 0;
    while i < acc.len()
        invariant
            i <= acc@.len(),
            forall|j: int| 0 <= j < i ==> acc@[j] != c,
        decreases acc@.len() - i,
    {
        if acc[i] == c {
            return true;
        }
        i = i + 1;
    }
    false
}

/// Collects the capability set declared by the module.
pub fn build_capabilities(instructions: &Vec<Instruction>) -> (r: Vec<Capability>)
    ensures
        r@ == spec_capabilities(instructions@.map_values(|ins: Instruction| ins@), Seq::empty()),
{
    let ghost all = instructions@.map_values(|ins: Instruction| ins@);
    let mut acc: Vec<Capability> = Vec::new();
    let mut i: usize = 0;
    proof {
        assert(all.skip(0) =~= all);
    }
    while i < instructions.len()
        invariant
            i <= instructions@.len(),
            spec_capabilities(all, Seq::empty()) == spec_capabilities(
                all.skip(i as int),
                acc@,
            ),
        decreases instructions@.len() - i,
    {
        let ghost pre = all.skip(i as int);
        proof {
            assert(pre.drop_first() =~= all.skip(i + 1));
            assert(pre[0] == instructions@[i as int]@);
        }
        match &instructions[i] {
            Instruction::Capability { capability } => {
                if !capability_seen(&acc, *capability) {
                    acc.push(*capability);
                }
            },
            _ => {},
        }
        i = i + 1;
    }
    proof {
        assert(all.skip(instructions@.len() as int) =~= Seq::<InstructionView>::empty());
    }
    acc
}

/// Whether the name table already has an entry for `id`.
pub open spec fn has_name(names: Seq<(u32, Seq<char>)>, id: u32) -> bool {
    exists|j: int| 0 <= j < names.len() && names[j].0 == id
}

/// The name recorded for `id`, if any; the table is built with unique ids.
pub open spec fn lookup_name(names: Seq<(u32, Seq<char>)>, id: u32) -> Option<Seq<char>>
    decreases names.len(),
{
    if names.len() == 0 {
        None
    } else if names[0].0 == id {
        Some(names[0].1)
    } else {
        lookup_name(names.drop_first(), id)
    }
}

/// The name table: every `Name` instruction's target and string. A second
/// `Name` for the same id is a `DuplicateDeclaration` error, even when the
/// strings agree.
pub open spec fn spec_names(instrs: Seq<InstructionView>, acc: Seq<(u32, Seq<char>)>) -> Result<
    Seq<(u32, Seq<char>)>,
    ErrorView,
>
    decreases instrs.len(),
{
    if instrs.len() == 0 {
        Ok(acc)
    } else {
        match instrs[0] {
            InstructionView::Name { target_id, name } => if has_name(acc, target_id) {
                Err(ErrorView::DuplicateDeclaration { id: target_id })
            } else {
                spec_names(instrs.drop_first(), acc.push((target_id, name)))
            },
            _ => spec_names(instrs.drop_first(), acc),
        }
    }
}

fn name_seen(names: &Vec<(u32, String)>, id: u32) -> (r: bool)
    ensures
        r == has_name(names@.map_values(|p: (u32, String)| p@), id),
{
    let ghost model = names@.map_values(|p: (u32, String)| p@);
    let mut i: usize = 0;
    while i < names.len()
        invariant
            i <= names@.len(),
            forall|j: int| 0 <= j < i ==> model[j].0 != id,
        decreases names@.len() - i,
    {
        if names[i].0 == id {
            proof {
                assert(model[i as int].0 == id);
            }
            return true;
        }
        i = i + 1;
    }
    false
}

/// Builds the name table, failing on a duplicate `Name` target.
pub fn build_names(instructions: &Vec<Instruction>) -> (r: Result<Vec<(u32, String)>, Error>)
    ensures
        match r {
            Ok(v) => spec_names(instructions@.map_values(|ins: Instruction| ins@), Seq::empty())
                == Ok::<_, ErrorView>(v@.map_values(|p: (u32, String)| p@)),
            Err(e) => spec_names(instructions@.map_values(|ins: Instruction| ins@), Seq::empty())
                == Err::<Seq<(u32, Seq<char>)>, _>(e@),
        },
{
    let ghost all = instructions@.map_values(|ins: Instruction| ins@);
    let mut acc: Vec<(u32, String)> = Vec::new();
    let mut i: usize = 0;
    proof {
        assert(all.skip(0) =~= all);
        assert(acc@.map_values(|p: (u32, String)| p@) =~= Seq::<(u32, Seq<char>)>::empty());
    }
    while i < instructions.len()
        invariant
            i <= instructions@.len(),
            spec_names(all, Seq::empty()) == spec_names(
                all.skip(i as int),
                acc@.map_values(|p: (u32, String)| p@),
            ),
        decreases instructions@.len() - i,
    {
        let ghost pre = all.skip(i as int);
        let ghost acc_model = acc@.map_values(|p: (u32, String)| p@);
        proof {
            assert(pre.drop_first() =~= all.skip(i + 1));
            assert(pre[0] == instructions@[i as int]@);
        }
        match &instructions[i] {
            Instruction::Name { target_id, name } => {
                if name_seen(&acc, *target_id) {
                    return Err(Error::DuplicateDeclaration { id: *target_id });
                }
                acc.push((*target_id, name.clone()));
                proof {
                    assert(acc@.map_values(|p: (u32, String)| p@) =~= acc_model.push(
                        (*target_id, name@),
                    ));
                }
            },
            _ => {},
        }
        i = i + 1;
    }
    proof {
        assert(all.skip(instructions@.len() as int) =~= Seq::<InstructionView>::empty());
    }
    Ok(acc)
}

/// Once an id with a pending `Name` instruction is already in the table,
/// the pass must fail.
proof fn lemma_names_pending_dup(
    instrs: Seq<InstructionView>,
    acc: Seq<(u32, Seq<char>)>,
    j: int,
)
    requires
        0 <= j < instrs.len(),
        instrs[j] matches InstructionView::Name { target_id, .. } && has_name(acc, target_id),
    ensures
        spec_names(instrs, acc) is Err,
    decreases instrs.len(),
{
    match instrs[0] {
        InstructionView::Name { target_id, name } => {
            if !has_name(acc, target_id) {
                let acc2 = acc.push((target_id, name));
                if j > 0 {
                    let id = instrs[j]->Name_target_id;
                    let w = choose|w: int| 0 <= w < acc.len() && acc[w].0 == id;
                    assert(acc2[w].0 == id);
                    assert(has_name(acc2, id));
                    assert(instrs.drop_first()[j - 1] == instrs[j]);
                    lemma_names_pending_dup(instrs.drop_first(), acc2, j - 1);
                }
            }
        },
        _ => {
            assert(j > 0);
            assert(instrs.drop_first()[j - 1] == instrs[j]);
            lemma_names_pending_dup(instrs.drop_first(), acc, j - 1);
        },
    }
}

/// Two `Name` instructions that target the same id make the symbol pass
/// fail, even when the names are the same string: name declarations must
/// be unique per id.
pub proof fn lemma_duplicate_name_fails(
    instrs: Seq<InstructionView>,
    acc: Seq<(u32, Seq<char>)>,
    i: int,
    j: int,
)
    requires
        0 <= i < j < instrs.len(),
        instrs[i] matches InstructionView::Name { target_id: id1, .. },
        instrs[j] matches InstructionView::Name { target_id: id2, .. },
        instrs[i]->Name_target_id == instrs[j]->Name_target_id,
    ensures
        spec_names(instrs, acc) is Err,
    decreases instrs.len(),
{
    match instrs[0] {
        InstructionView::Name { target_id, name } => {
            if !has_name(acc, target_id) {
                let acc2 = acc.push((target_id, name));
                if i == 0 {
                    assert(acc2[acc2.len() - 1].0 == target_id);
                    assert(has_name(acc2, target_id));
                    assert(instrs.drop_first()[j - 1] == instrs[j]);
                    lemma_names_pending_dup(instrs.drop_first(), acc2, j - 1);
                } else {
                    assert(instrs.drop_first()[i - 1] == instrs[i]);
                    assert(instrs.drop_first()[j - 1] == instrs[j]);
                    lemma_duplicate_name_fails(instrs.drop_first(), acc2, i - 1, j - 1);
                }
            }
        },
        _ => {
            assert(i > 0);
            assert(instrs.drop_first()[i - 1] == instrs[i]);
            assert(instrs.drop_first()[j - 1] == instrs[j]);
            lemma_duplicate_name_fails(instrs.drop_first(), acc, i - 1, j - 1);
        },
    }
}

/// Looks a name up in the built table.
pub fn name_of(names: &Vec<(u32, String)>, id: u32) -> (r: Option<String>)
    ensures
        crate::opt_view(r) == lookup_name(names@.map_values(|p: (u32, String)| p@), id),
{
    let ghost model = names@.map_values(|p: (u32, String)| p@);
    let mut i: usize = 0;
    proof {
        assert(model.skip(0) =~= model);
    }
    while i < names.len()
        invariant
            i <= names@.len(),
            lookup_name(model, id) == lookup_name(model.skip(i as int), id),
        decreases names@.len() - i,
    {
        proof {
            assert(model.skip(i as int).drop_first() =~= model.skip(i + 1));
        }
        if names[i].0 == id {
            return Some(names[i].1.clone());
        }
        i = i + 1;
    }
    proof {
        assert(model.skip(names@.len() as int) =~= Seq::<(u32, Seq<char>)>::empty());
    }
    None
}

/// The whole-object decoration table: every `Decorate` instruction, in order.
pub open spec fn spec_decorations(instrs: Seq<InstructionView>, acc: Seq<DecorationEntryView>)
    -> Seq<DecorationEntryView>
    decreases instrs.len(),
{
    if instrs.len() == 0 {
        acc
    } else {
        let acc2 = match instrs[0] {
            InstructionView::Decorate { target_id, decoration, params } => acc.push(
                DecorationEntryView { target_id, decoration, params },
            ),
            _ => acc,
        };
        spec_decorations(instrs.drop_first(), acc2)
    }
}

/// Builds the whole-object decoration table.
pub fn build_decorations(instructions: &Vec<Instruction>) -> (r: Vec<DecorationEntry>)
    ensures
        r@.map_values(|e: DecorationEntry| e@) == spec_decorations(
            instructions@.map_values(|ins: Instruction| ins@),
            Seq::empty(),
        ),
{
    let ghost all = instructions@.map_values(|ins: Instruction| ins@);
    let mut acc: Vec<DecorationEntry> = Vec::new();
    let mut i: usize = 0;
    proof {
        assert(all.skip(0) =~= all);
        assert(acc@.map_values(|e: DecorationEntry| e@) =~= Seq::<DecorationEntryView>::empty());
    }
    while i < instructions.len()
        invariant
            i <= instructions@.len(),
            spec_decorations(all, Seq::empty()) == spec_decorations(
                all.skip(i as int),
                acc@.map_values(|e: DecorationEntry| e@),
            ),
        decreases instructions@.len() - i,
    {
        let ghost pre = all.skip(i as int);
        let ghost acc_model = acc@.map_values(|e: DecorationEntry| e@);
        proof {
            assert(pre.drop_first() =~= all.skip(i + 1));
            assert(pre[0] == instructions@[i as int]@);
        }
        match &instructions[i] {
            Instruction::Decorate { target_id, decoration, params } => {
                let entry = DecorationEntry {
                    target_id: *target_id,
                    decoration: *decoration,
                    params: crate::parse::copy_range(params, 0, params.len()),
                };
                proof {
                    assert(entry@.params =~= params@);
                }
                acc.push(entry);
                proof {
                    assert(acc@.map_values(|e: DecorationEntry| e@) =~= acc_model.push(entry@));
                }
            },
            _ => {},
        }
        i = i + 1;
    }
    proof {
        assert(all.skip(instructions@.len() as int) =~= Seq::<InstructionView>::empty());
    }
    acc
}

/// The parameters of `decoration` on `id`, the latest entry winning, as an
/// overwriting map insert would have it.
pub open spec fn lookup_decoration(
    decs: Seq<DecorationEntryView>,
    id: u32,
    decoration: Decoration,
) -> Option<Seq<u32>>
    decreases decs.len(),
{
    if decs.len() == 0 {
        None
    } else {
        let last = decs.last();
        if last.target_id == id && last.decoration == decoration {
            Some(last.params)
        } else {
            lookup_decoration(decs.drop_last(), id, decoration)
        }
    }
}

/// Looks up a whole-object decoration on `id`.
pub fn decoration_of(decs: &Vec<DecorationEntry>, id: u32, decoration: Decoration) -> (r: Option<
    Vec<u32>,
>)
    ensures
        match r {
            Some(params) => lookup_decoration(
                decs@.map_values(|e: DecorationEntry| e@),
                id,
                decoration,
            ) == Some(params@),
            None => lookup_decoration(decs@.map_values(|e: DecorationEntry| e@), id, decoration)
                is None,
        },
{
    let ghost model = decs@.map_values(|e: DecorationEntry| e@);
    let mut i: usize = decs.len();
    proof {
        assert(model.take(model.len() as int) =~= model);
    }
    while i > 0
        invariant
            i <= decs@.len(),
            lookup_decoration(model, id, decoration) == lookup_decoration(
                model.take(i as int),
                id,
                decoration,
            ),
        decreases i,
    {
        i = i - 1;
        proof {
            assert(model.take(i + 1).drop_last() =~= model.take(i as int));
            assert(model.take(i + 1).last() == model[i as int]);
        }
        if decs[i].target_id == id {
            let e = &decs[i];
            if e.decoration == decoration {
                return Some(crate::parse::copy_range(&e.params, 0, e.params.len()));
            }
        }
    }
    proof {
        assert(model.take(0) =~= Seq::<DecorationEntryView>::empty());
    }
    None
}

/// The per-member decoration table: every `MemberDecorate`, in order.
pub open spec fn spec_member_decorations(
    instrs: Seq<InstructionView>,
    acc: Seq<MemberDecorationEntryView>,
) -> Seq<MemberDecorationEntryView>
    decreases instrs.len(),
{
    if instrs.len() == 0 {
        acc
    } else {
        let acc2 = match instrs[0] {
            InstructionView::MemberDecorate { target_id, member, decoration, params } => acc.push(
                MemberDecorationEntryView { target_id, member, decoration, params },
            ),
            _ => acc,
        };
        spec_member_decorations(instrs.drop_first(), acc2)
    }
}

/// Builds the per-member decoration table.
pub fn build_member_decorations(instructions: &Vec<Instruction>) -> (r: Vec<
    MemberDecorationEntry,
>)
    ensures
        r@.map_values(|e: MemberDecorationEntry| e@) == spec_member_decorations(
            instructions@.map_values(|ins: Instruction| ins@),
            Seq::empty(),
        ),
{
    let ghost all = instructions@.map_values(|ins: Instruction| ins@);
    let mut acc: Vec<MemberDecorationEntry> = Vec::new();
    let mut i: usize = 0;
    proof {
        assert(all.skip(0) =~= all);
        assert(acc@.map_values(|e: MemberDecorationEntry| e@) =~= Seq::<MemberDecorationEntryView>::empty());
    }
    while i < instructions.len()
        invariant
            i <= instructions@.len(),
            spec_member_decorations(all, Seq::empty()) == spec_member_decorations(
                all.skip(i as int),
                acc@.map_values(|e: MemberDecorationEntry| e@),
            ),
        decreases instructions@.len() - i,
    {
        let ghost pre = all.skip(i as int);
        let ghost acc_model = acc@.map_values(|e: MemberDecorationEntry| e@);
        proof {
            assert(pre.drop_first() =~= all.skip(i + 1));
            assert(pre[0] == instructions@[i as int]@);
        }
        match &instructions[i] {
            Instruction::MemberDecorate { target_id, member, decoration, params } => {
                let entry = MemberDecorationEntry {
                    target_id: *target_id,
                    member: *member,
                    decoration: *decoration,
                    params: crate::parse::copy_range(params, 0, params.len()),
                };
                proof {
                    assert(entry@.params =~= params@);
                }
                acc.push(entry);
                proof {
                    assert(acc@.map_values(|e: MemberDecorationEntry| e@) =~= acc_model.push(
                        entry@,
                    ));
                }
            },
            _ => {},
        }
        i = i + 1;
    }
    proof {
        assert(all.skip(instructions@.len() as int) =~= Seq::<InstructionView>::empty());
    }
    acc
}

/// The parameters of `decoration` on member `member` of `id`, the latest
/// entry winning.
pub open spec fn lookup_member_decoration(
    mdecs: Seq<MemberDecorationEntryView>,
    id: u32,
    member: u32,
    decoration: Decoration,
) -> Option<Seq<u32>>
    decreases mdecs.len(),
{
    if mdecs.len() == 0 {
        None
    } else {
        let last = mdecs.last();
        if last.target_id == id && last.member == member && last.decoration == decoration {
            Some(last.params)
        } else {
            lookup_member_decoration(mdecs.drop_last(), id, member, decoration)
        }
    }
}

/// Looks up a decoration on one member of a struct id.
pub fn member_decoration_of(
    mdecs: &Vec<MemberDecorationEntry>,
    id: u32,
    member: u32,
    decoration: Decoration,
) -> (r: Option<Vec<u32>>)
    ensures
        match r {
            Some(params) => lookup_member_decoration(
                mdecs@.map_values(|e: MemberDecorationEntry| e@),
                id,
                member,
                decoration,
            ) == Some(params@),
            None => lookup_member_decoration(
                mdecs@.map_values(|e: MemberDecorationEntry| e@),
                id,
                member,
                decoration,
            ) is None,
        },
{
    let ghost model = mdecs@.map_values(|e: MemberDecorationEntry| e@);
    let mut i: usize = mdecs.len();
    proof {
        assert(model.take(model.len() as int) =~= model);
    }
    while i > 0
        invariant
            i <= mdecs@.len(),
            lookup_member_decoration(model, id, member, decoration) == lookup_member_decoration(
                model.take(i as int),
                id,
                member,
                decoration,
            ),
        decreases i,
    {
        i = i - 1;
        proof {
            assert(model.take(i + 1).drop_last() =~= model.take(i as int));
            assert(model.take(i + 1).last() == model[i as int]);
        }
        if mdecs[i].target_id == id && mdecs[i].member == member {
            let e = &mdecs[i];
            if e.decoration == decoration {
                return Some(crate::parse::copy_range(&e.params, 0, e.params.len()));
            }
        }
    }
    proof {
        assert(model.take(0) =~= Seq::<MemberDecorationEntryView>::empty());
    }
    None
}

/// The module-scope variable table: id, type id and storage class of every
/// `Variable` instruction, in order; a later declaration of the same id wins
/// on lookup.
pub open spec fn spec_variables(instrs: Seq<InstructionView>, acc: Seq<(u32, u32, StorageClass)>)
    -> Seq<(u32, u32, StorageClass)>
    decreases instrs.len(),
{
    if instrs.len() == 0 {
        acc
    } else {
        let acc2 = match instrs[0] {
            InstructionView::Variable { result_type_id, result_id, storage_class, .. } => acc.push(
                (result_id, result_type_id, storage_class),
            ),
            _ => acc,
        };
        spec_variables(instrs.drop_first(), acc2)
    }
}

/// Builds the variable table.
pub fn build_variables(instructions: &Vec<Instruction>) -> (r: Vec<(u32, u32, StorageClass)>)
    ensures
        r@ == spec_variables(instructions@.map_values(|ins: Instruction| ins@), Seq::empty()),
{
    let ghost all = instructions@.map_values(|ins: Instruction| ins@);
    let mut acc: Vec<(u32, u32, StorageClass)> = Vec::new();
    let mut i: usize = 0;
    proof {
        assert(all.skip(0) =~= all);
    }
    while i < instructions.len()
        invariant
            i <= instructions@.len(),
            spec_variables(all, Seq::empty()) == spec_variables(all.skip(i as int), acc@),
        decreases instructions@.len() - i,
    {
        let ghost pre = all.skip(i as int);
        proof {
            assert(pre.drop_first() =~= all.skip(i + 1));
            assert(pre[0] == instructions@[i as int]@);
        }
        match &instructions[i] {
            Instruction::Variable { result_type_id, result_id, storage_class, .. } => {
                acc.push((*result_id, *result_type_id, *storage_class));
            },
            _ => {},
        }
        i = i + 1;
    }
    proof {
        assert(all.skip(instructions@.len() as int) =~= Seq::<InstructionView>::empty());
    }
    acc
}

/// The variable entry for `id`, the latest winning.
pub open spec fn lookup_variable(vars: Seq<(u32, u32, StorageClass)>, id: u32) -> Option<
    (u32, StorageClass),
>
    decreases vars.len(),
{
    if vars.len() == 0 {
        None
    } else if vars.last().0 == id {
        Some((vars.last().1, vars.last().2))
    } else {
        lookup_variable(vars.drop_last(), id)
    }
}

/// Looks a module-scope variable up by id.
pub fn variable_of(vars: &Vec<(u32, u32, StorageClass)>, id: u32) -> (r: Option<
    (u32, StorageClass),
>)
    ensures
        r == lookup_variable(vars@, id),
{
    let mut i: usize = vars.len();
    proof {
        assert(vars@.take(vars@.len() as int) =~= vars@);
    }
    while i > 0
        invariant
            i <= vars@.len(),
            lookup_variable(vars@, id) == lookup_variable(vars@.take(i as int), id),
        decreases i,
    {
        i = i - 1;
        proof {
            assert(vars@.take(i + 1).drop_last() =~= vars@.take(i as int));
            assert(vars@.take(i + 1).last() == vars@[i as int]);
        }
        if vars[i].0 == id {
            return Some((vars[i].1, vars[i].2));
        }
    }
    proof {
        assert(vars@.take(0) =~= Seq::<(u32, u32, StorageClass)>::empty());
    }
    None
}

/// The execution modes declared in the module, as (entry point id, mode)
/// pairs in document order.
pub open spec fn spec_execution_modes(
    instrs: Seq<InstructionView>,
    acc: Seq<(u32, ExecutionMode)>,
) -> Seq<(u32, ExecutionMode)>
    decreases instrs.len(),
{
    if instrs.len() == 0 {
        acc
    } else {
        let acc2 = match instrs[0] {
            InstructionView::ExecutionMode { target_id, mode, .. } => acc.push((target_id, mode)),
            _ => acc,
        };
        spec_execution_modes(instrs.drop_first(), acc2)
    }
}

/// Builds the execution-mode list.
pub fn build_execution_modes(instructions: &Vec<Instruction>) -> (r: Vec<(u32, ExecutionMode)>)
    ensures
        r@ == spec_execution_modes(
            instructions@.map_values(|ins: Instruction| ins@),
            Seq::empty(),
        ),
{
    let ghost all = instructions@.map_values(|ins: Instruction| ins@);
    let mut acc: Vec<(u32, ExecutionMode)> = Vec::new();
    let mut i: usize = 0;
    proof {
        assert(all.skip(0) =~= all);
    }
    while i < instructions.len()
        invariant
            i <= instructions@.len(),
            spec_execution_modes(all, Seq::empty()) == spec_execution_modes(
                all.skip(i as int),
                acc@,
            ),
        decreases instructions@.len() - i,
    {
        let ghost pre = all.skip(i as int);
        proof {
            assert(pre.drop_first() =~= all.skip(i + 1));
            assert(pre[0] == instructions@[i as int]@);
        }
        match &instructions[i] {
            Instruction::ExecutionMode { target_id, mode, .. } => {
                acc.push((*target_id, *mode));
            },
            _ => {},
        }
        i = i + 1;
    }
    proof {
        assert(all.skip(instructions@.len() as int) =~= Seq::<InstructionView>::empty());
    }
    acc
}

/// The test for one entry point's execution modes.
pub open spec fn mode_pred(id: u32) -> spec_fn((u32, ExecutionMode)) -> bool {
    |p: (u32, ExecutionMode)| p.0 == id
}

/// The modes among `modes` that belong to entry point `id`, in order.
pub open spec fn modes_for(modes: Seq<(u32, ExecutionMode)>, id: u32) -> Seq<ExecutionMode> {
    modes.filter(mode_pred(id)).map_values(|p: (u32, ExecutionMode)| p.1)
}

/// Collects the execution modes of one entry point.
pub fn modes_of(modes: &Vec<(u32, ExecutionMode)>, id: u32) -> (r: Vec<ExecutionMode>)
    ensures
        r@ == modes_for(modes@, id),
{
    let mut acc: Vec<ExecutionMode> = Vec::new();
    let mut i: usize = 0;
    proof {
        assert(modes@.take(0) =~= Seq::<(u32, ExecutionMode)>::empty());
        assert(modes_for(modes@.take(0), id) =~= Seq::<ExecutionMode>::empty());
    }
    while i < modes.len()
        invariant
            i <= modes@.len(),
            acc@ == modes_for(modes@.take(i as int), id),
        decreases modes@.len() - i,
    {
        let ghost before = modes@.take(i as int);
        let ghost after = modes@.take(i + 1);
        proof {
            assert(after =~= before.push(modes@[i as int]));
            lemma_filter_push(before, modes@[i as int], mode_pred(id));
        }
        if modes[i].0 == id {
            acc.push(modes[i].1);
            proof {
                assert(modes_for(after, id) =~= modes_for(before, id).push(modes@[i as int].1));
            }
        } else {
            proof {
                assert(modes_for(after, id) =~= modes_for(before, id));
            }
        }
        i = i + 1;
    }
    proof {
        assert(modes@.take(modes@.len() as int) =~= modes@);
    }
    acc
}

/// Filtering a sequence extended by one element keeps the front and appends
/// the element exactly when it passes the filter.
pub proof fn lemma_filter_push<A>(s: Seq<A>, x: A, pred: spec_fn(A) -> bool)
    ensures
        s.push(x).filter(pred) == if pred(x) {
            s.filter(pred).push(x)
        } else {
            s.filter(pred)
        },
{
    reveal_with_fuel(Seq::filter, 2);
    assert(s.push(x).drop_last() =~= s);
    assert(s.push(x).last() == x);
}

/// The raw constant table: the data words of every `Constant`, keyed by its
/// result id, a later entry winning.
pub open spec fn spec_constants(instrs: Seq<InstructionView>, acc: Seq<(u32, Seq<u32>)>) -> Seq<
    (u32, Seq<u32>),
>
    decreases instrs.len(),
{
    if instrs.len() == 0 {
        acc
    } else {
        let acc2 = match instrs[0] {
            InstructionView::Constant { result_id, data, .. } => acc.push((result_id, data)),
            _ => acc,
        };
        spec_constants(instrs.drop_first(), acc2)
    }
}

/// Builds the raw constant table.
pub fn build_constants(instructions: &Vec<Instruction>) -> (r: Vec<(u32, Vec<u32>)>)
    ensures
        r@.map_values(|p: (u32, Vec<u32>)| p@) == spec_constants(
            instructions@.map_values(|ins: Instruction| ins@),
            Seq::empty(),
        ),
{
    let ghost all = instructions@.map_values(|ins: Instruction| ins@);
    let mut acc: Vec<(u32, Vec<u32>)> = Vec::new();
    let mut i: usize = 0;
    proof {
        assert(all.skip(0) =~= all);
        assert(acc@.map_values(|p: (u32, Vec<u32>)| p@) =~= Seq::<(u32, Seq<u32>)>::empty());
    }
    while i < instructions.len()
        invariant
            i <= instructions@.len(),
            spec_constants(all, Seq::empty()) == spec_constants(
                all.skip(i as int),
                acc@.map_values(|p: (u32, Vec<u32>)| p@),
            ),
        decreases instructions@.len() - i,
    {
        let ghost pre = all.skip(i as int);
        let ghost acc_model = acc@.map_values(|p: (u32, Vec<u32>)| p@);
        proof {
            assert(pre.drop_first() =~= all.skip(i + 1));
            assert(pre[0] == instructions@[i as int]@);
        }
        match &instructions[i] {
            Instruction::Constant { result_id, data, .. } => {
                let copied = crate::parse::copy_range(data, 0, data.len());
                proof {
                    assert(copied@ =~= data@);
                }
                acc.push((*result_id, copied));
                proof {
                    assert(acc@.map_values(|p: (u32, Vec<u32>)| p@) =~= acc_model.push(
                        (*result_id, data@),
                    ));
                }
            },
            _ => {},
        }
        i = i + 1;
    }
    proof {
        assert(all.skip(instructions@.len() as int) =~= Seq::<InstructionView>::empty());
    }
    acc
}

/// The data words recorded for constant `id`, the latest winning.
pub open spec fn lookup_constant(consts: Seq<(u32, Seq<u32>)>, id: u32) -> Option<Seq<u32>>
    decreases consts.len(),
{
    if consts.len() == 0 {
        None
    } else if consts.last().0 == id {
        Some(consts.last().1)
    } else {
        lookup_constant(consts.drop_last(), id)
    }
}

/// Looks a raw constant up by id.
pub fn constant_of(consts: &Vec<(u32, Vec<u32>)>, id: u32) -> (r: Option<Vec<u32>>)
    ensures
        match r {
            Some(data) => lookup_constant(consts@.map_values(|p: (u32, Vec<u32>)| p@), id)
                == Some(data@),
            None => lookup_constant(consts@.map_values(|p: (u32, Vec<u32>)| p@), id) is None,
        },
{
    let ghost model = consts@.map_values(|p: (u32, Vec<u32>)| p@);
    let mut i: usize = consts.len();
    proof {
        assert(model.take(model.len() as int) =~= model);
    }
    while i > 0
        invariant
            i <= consts@.len(),
            lookup_constant(model, id) == lookup_constant(model.take(i as int), id),
        decreases i,
    {
        i = i - 1;
        proof {
            assert(model.take(i + 1).drop_last() =~= model.take(i as int));
            assert(model.take(i + 1).last() == model[i as int]);
        }
        if consts[i].0 == id {
            return Some(crate::parse::copy_range(&consts[i].1, 0, consts[i].1.len()));
        }
    }
    proof {
        assert(model.take(0) =~= Seq::<(u32, Seq<u32>)>::empty());
    }
    None
}

} // verus!
