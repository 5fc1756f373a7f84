//! The reflection model of one shader binary: the symbol tables, the
//! resolved type graph, and the derived lists of entry points, descriptor
//! bindings, push-constant types and specialization constants, all built in
//! one pass from the decoded document.

use vstd::prelude::*;

use crate::descriptor_sets::{NewDescriptor, NewDescriptorView};
use crate::entry_point::{EntryPoint, EntryPointView, InterfaceVariable, InterfaceVariableView};
use crate::enums::{Capability, Decoration, ExecutionMode, StorageClass};
use crate::parse::{Instruction, InstructionView, Spirv, SpirvView};
use crate::spec_consts::{
    SpecializationConstant, SpecializationConstantKind, SpecializationConstantKindView,
    SpecializationConstantView,
};
use crate::tables::{
    lookup_decoration, lookup_member_decoration, lookup_name, lookup_variable, modes_for,
    spec_capabilities, spec_decorations, spec_execution_modes, spec_member_decorations,
    spec_names, spec_variables, DecorationEntry, DecorationEntryView, MemberDecorationEntry,
    MemberDecorationEntryView,
};
use crate::types::{
    lookup_type, spec_extract_types, spec_rust_type, type_models, Type, TypeView,
};
use crate::{Error, ErrorView};

verus! {

broadcast use {vstd::std_specs::vec::group_vec_axioms, vstd::seq::group_seq_axioms};

/// The pointee of every pointer type living in the push-constant storage
/// class, in declaration order.
pub open spec fn spec_push_constants(types: Seq<(u32, TypeView)>, acc: Seq<TypeView>) -> Seq<
    TypeView,
>
    decreases types.len(),
{
    if types.len() == 0 {
        acc
    } else {
        let acc2 = match types[0].1 {
            TypeView::Pointer { storage_class: StorageClass::PushConstant, pointee_type } => acc
                .push(*pointee_type),
            _ => acc,
        };
        spec_push_constants(types.drop_first(), acc2)
    }
}

/// Collects the push-constant pointee types.
pub fn build_push_constants(types: &Vec<(u32, Type)>) -> (r: Vec<Type>)
    ensures
        type_models(r@) == spec_push_constants(
            types@.map_values(|p: (u32, Type)| (p.0, p.1.model())),
            Seq::empty(),
        ),
{
    let ghost all = types@.map_values(|p: (u32, Type)| (p.0, p.1.model()));
    let mut acc: Vec<Type> = Vec::new();
    let mut i: usize = 0;
    proof {
        assert(all.skip(0) =~= all);
        assert(type_models(acc@) =~= Seq::<TypeView>::empty());
    }
    while i < types.len()
        invariant
            i <= types@.len(),
            spec_push_constants(all, Seq::empty()) == spec_push_constants(
                all.skip(i as int),
                type_models(acc@),
            ),
        decreases types@.len() - i,
    {
        let ghost pre = all.skip(i as int);
        let ghost done = type_models(acc@);
        proof {
            assert(pre.drop_first() =~= all.skip(i + 1));
            assert(pre[0] == (types@[i as int].0, types@[i as int].1.model()));
        }
        match &types[i].1 {
            Type::Pointer { storage_class: StorageClass::PushConstant, pointee_type } => {
                let copied = (**pointee_type).clone();
                let ghost tm = copied.model();
                let ghost before = acc@;
                acc.push(copied);
                proof {
                    assert(acc@.drop_last() =~= before);
                    crate::types::lemma_type_models_push(acc@, done, tm);
                }
            },
            _ => {},
        }
        i = i + 1;
    }
    proof {
        assert(all.skip(types@.len() as int) =~= Seq::<(u32, TypeView)>::empty());
    }
    acc
}

/// What one decoration entry contributes to the descriptor list: nothing
/// unless it is a `DescriptorSet` decoration; then the variable it
/// decorates becomes a descriptor, or a missing piece becomes an error.
pub open spec fn spec_descriptor_for(
    entry: DecorationEntryView,
    decs: Seq<DecorationEntryView>,
    vars: Seq<(u32, u32, StorageClass)>,
    types: Seq<(u32, TypeView)>,
    names: Seq<(u32, Seq<char>)>,
) -> Option<Result<NewDescriptorView, ErrorView>> {
    if entry.decoration != Decoration::DescriptorSet {
        None
    } else {
        let vid = entry.target_id;
        if entry.params.len() == 0 {
            Some(Err(ErrorView::MissingDecoration { id: vid, decoration: Decoration::DescriptorSet }))
        } else {
            match lookup_variable(vars, vid) {
                None => Some(Err(ErrorView::UnresolvedReference { id: vid })),
                Some((type_id, _)) => match lookup_type(types, type_id) {
                    None => Some(Err(ErrorView::UnresolvedReference { id: type_id })),
                    Some(pt) => match pt {
                        TypeView::Pointer { pointee_type, .. } => match lookup_name(names, vid) {
                            None => Some(Err(ErrorView::UnresolvedReference { id: vid })),
                            Some(name) => match lookup_decoration(
                                decs,
                                vid,
                                Decoration::Binding,
                            ) {
                                None => Some(
                                    Err(
                                        ErrorView::MissingDecoration {
                                            id: vid,
                                            decoration: Decoration::Binding,
                                        },
                                    ),
                                ),
                                Some(bp) => if bp.len() == 0 {
                                    Some(
                                        Err(
                                            ErrorView::MissingDecoration {
                                                id: vid,
                                                decoration: Decoration::Binding,
                                            },
                                        ),
                                    )
                                } else {
                                    Some(
                                        Ok(
                                            NewDescriptorView {
                                                descriptor_set: entry.params[0],
                                                binding_point: bp[0],
                                                spirv_type: *pointee_type,
                                                name,
                                                type_id,
                                            },
                                        ),
                                    )
                                },
                            },
                        },
                        _ => Some(Err(ErrorView::UnsupportedDescriptorShape)),
                    },
                },
            }
        }
    }
}

/// The descriptor list: every variable decorated with a descriptor set, in
/// the decoration table's order.
pub open spec fn spec_descriptors(
    rest: Seq<DecorationEntryView>,
    decs: Seq<DecorationEntryView>,
    vars: Seq<(u32, u32, StorageClass)>,
    types: Seq<(u32, TypeView)>,
    names: Seq<(u32, Seq<char>)>,
    acc: Seq<NewDescriptorView>,
) -> Result<Seq<NewDescriptorView>, ErrorView>
    decreases rest.len(),
{
    if rest.len() == 0 {
        Ok(acc)
    } else {
        match spec_descriptor_for(rest[0], decs, vars, types, names) {
            None => spec_descriptors(rest.drop_first(), decs, vars, types, names, acc),
            Some(Err(e)) => Err(e),
            Some(Ok(d)) => spec_descriptors(
                rest.drop_first(),
                decs,
                vars,
                types,
                names,
                acc.push(d),
            ),
        }
    }
}

fn descriptor_for(
    entry: &DecorationEntry,
    decorations: &Vec<DecorationEntry>,
    variables: &Vec<(u32, u32, StorageClass)>,
    types: &Vec<(u32, Type)>,
    names: &Vec<(u32, String)>,
) -> (r: Option<Result<NewDescriptor, Error>>)
    ensures
        match r {
            None => spec_descriptor_for(
                entry@,
                decorations@.map_values(|e: DecorationEntry| e@),
                variables@,
                types@.map_values(|p: (u32, Type)| (p.0, p.1.model())),
                names@.map_values(|p: (u32, String)| p@),
            ) is None,
            Some(Ok(d)) => spec_descriptor_for(
                entry@,
                decorations@.map_values(|e: DecorationEntry| e@),
                variables@,
                types@.map_values(|p: (u32, Type)| (p.0, p.1.model())),
                names@.map_values(|p: (u32, String)| p@),
            ) == Some(Ok::<_, ErrorView>(d@)),
            Some(Err(e)) => spec_descriptor_for(
                entry@,
                decorations@.map_values(|e: DecorationEntry| e@),
                variables@,
                types@.map_values(|p: (u32, Type)| (p.0, p.1.model())),
                names@.map_values(|p: (u32, String)| p@),
            ) == Some(Err::<NewDescriptorView, _>(e@)),
        },
{
    if entry.decoration != Decoration::DescriptorSet {
        return None;
    }
    let vid = entry.target_id;
    if entry.params.len() == 0 {
        return Some(
            Err(Error::MissingDecoration { id: vid, decoration: Decoration::DescriptorSet }),
        );
    }
    let descriptor_set = entry.params[0];
    let (type_id, _storage) = match crate::tables::variable_of(variables, vid) {
        None => {
            return Some(Err(Error::UnresolvedReference { id: vid }));
        },
        Some(v) => v,
    };
    let pointer_type = match crate::types::type_of(types, type_id) {
        None => {
            return Some(Err(Error::UnresolvedReference { id: type_id }));
        },
        Some(t) => t,
    };
    let pointee = match pointer_type {
        Type::Pointer { pointee_type, .. } => *pointee_type,
        _ => {
            return Some(Err(Error::UnsupportedDescriptorShape));
        },
    };
    let name = match crate::tables::name_of(names, vid) {
        None => {
            return Some(Err(Error::UnresolvedReference { id: vid }));
        },
        Some(n) => n,
    };
    let bp = match crate::tables::decoration_of(decorations, vid, Decoration::Binding) {
        None => {
            return Some(
                Err(Error::MissingDecoration { id: vid, decoration: Decoration::Binding }),
            );
        },
        Some(p) => p,
    };
    if bp.len() == 0 {
        return Some(Err(Error::MissingDecoration { id: vid, decoration: Decoration::Binding }));
    }
    Some(
        Ok(
            NewDescriptor {
                descriptor_set,
                binding_point: bp[0],
                spirv_type: pointee,
                name,
                type_id,
            },
        ),
    )
}

/// Derives the descriptor list from the decoration table.
pub fn build_descriptors(
    decorations: &Vec<DecorationEntry>,
    variables: &Vec<(u32, u32, StorageClass)>,
    types: &Vec<(u32, Type)>,
    names: &Vec<(u32, String)>,
) -> (r: Result<Vec<NewDescriptor>, Error>)
    ensures
        match r {
            Ok(v) => spec_descriptors(
                decorations@.map_values(|e: DecorationEntry| e@),
                decorations@.map_values(|e: DecorationEntry| e@),
                variables@,
                types@.map_values(|p: (u32, Type)| (p.0, p.1.model())),
                names@.map_values(|p: (u32, String)| p@),
                Seq::empty(),
            ) == Ok::<_, ErrorView>(v@.map_values(|d: NewDescriptor| d@)),
            Err(e) => spec_descriptors(
                decorations@.map_values(|e: DecorationEntry| e@),
                decorations@.map_values(|e: DecorationEntry| e@),
                variables@,
                types@.map_values(|p: (u32, Type)| (p.0, p.1.model())),
                names@.map_values(|p: (u32, String)| p@),
                Seq::empty(),
            ) == Err::<Seq<NewDescriptorView>, _>(e@),
        },
{
    let ghost decs_m = decorations@.map_values(|e: DecorationEntry| e@);
    let ghost types_m = types@.map_values(|p: (u32, Type)| (p.0, p.1.model()));
    let ghost names_m = names@.map_values(|p: (u32, String)| p@);
    let mut acc: Vec<NewDescriptor> = Vec::new();
    let mut i: usize = 0;
    proof {
        assert(decs_m.skip(0) =~= decs_m);
        assert(acc@.map_values(|d: NewDescriptor| d@) =~= Seq::<NewDescriptorView>::empty());
    }
    while i < decorations.len()
        invariant
            i <= decorations@.len(),
            decs_m == decorations@.map_values(|e: DecorationEntry| e@),
            types_m == types@.map_values(|p: (u32, Type)| (p.0, p.1.model())),
            names_m == names@.map_values(|p: (u32, String)| p@),
            spec_descriptors(decs_m, decs_m, variables@, types_m, names_m, Seq::empty())
                == spec_descriptors(
                decs_m.skip(i as int),
                decs_m,
                variables@,
                types_m,
                names_m,
                acc@.map_values(|d: NewDescriptor| d@),
            ),
        decreases decorations@.len() - i,
    {
        let ghost pre = decs_m.skip(i as int);
        let ghost acc_model = acc@.map_values(|d: NewDescriptor| d@);
        proof {
            assert(pre.drop_first() =~= decs_m.skip(i + 1));
            assert(pre[0] == decorations@[i as int]@);
        }
        match descriptor_for(&decorations[i], decorations, variables, types, names) {
            None => {},
            Some(Err(e)) => {
                return Err(e);
            },
            Some(Ok(d)) => {
                let ghost dm = d@;
                acc.push(d);
                proof {
                    assert(acc@.map_values(|d: NewDescriptor| d@) =~= acc_model.push(dm));
                }
            },
        }
        i = i + 1;
    }
    proof {
        assert(decs_m.skip(decorations@.len() as int) =~= Seq::<DecorationEntryView>::empty());
    }
    Ok(acc)
}

/// Partitions an entry point's interface ids into inputs and outputs.
/// Built-in-decorated ids and ids whose name is empty are skipped; an id
/// with no variable or no name is an `UnresolvedReference`; a variable
/// without a `Location` decoration is a `MissingDecoration`.
pub open spec fn spec_interface_vars(
    interface: Seq<u32>,
    decs: Seq<DecorationEntryView>,
    vars: Seq<(u32, u32, StorageClass)>,
    names: Seq<(u32, Seq<char>)>,
    types: Seq<(u32, TypeView)>,
    ins: Seq<InterfaceVariableView>,
    outs: Seq<InterfaceVariableView>,
) -> Result<(Seq<InterfaceVariableView>, Seq<InterfaceVariableView>), ErrorView>
    decreases interface.len(),
{
    if interface.len() == 0 {
        Ok((ins, outs))
    } else {
        let iid = interface[0];
        let rest = interface.drop_first();
        if lookup_decoration(decs, iid, Decoration::BuiltIn) is Some {
            spec_interface_vars(rest, decs, vars, names, types, ins, outs)
        } else {
            match lookup_variable(vars, iid) {
                None => Err(ErrorView::UnresolvedReference { id: iid }),
                Some((type_id, sc)) => if sc != StorageClass::Input && sc != StorageClass::Output {
                    spec_interface_vars(rest, decs, vars, names, types, ins, outs)
                } else {
                    match lookup_name(names, iid) {
                        None => Err(ErrorView::UnresolvedReference { id: iid }),
                        Some(name) => if name.len() == 0 {
                            spec_interface_vars(rest, decs, vars, names, types, ins, outs)
                        } else {
                            match lookup_decoration(decs, iid, Decoration::Location) {
                                None => Err(
                                    ErrorView::MissingDecoration {
                                        id: iid,
                                        decoration: Decoration::Location,
                                    },
                                ),
                                Some(loc) => if loc.len() == 0 {
                                    Err(
                                        ErrorView::MissingDecoration {
                                            id: iid,
                                            decoration: Decoration::Location,
                                        },
                                    )
                                } else {
                                    match lookup_type(types, type_id) {
                                        None => Err(
                                            ErrorView::UnresolvedReference { id: type_id },
                                        ),
                                        Some(t) => {
                                            let v = InterfaceVariableView {
                                                name,
                                                spirv_type: t,
                                                location: loc[0],
                                            };
                                            if sc == StorageClass::Input {
                                                spec_interface_vars(
                                                    rest,
                                                    decs,
                                                    vars,
                                                    names,
                                                    types,
                                                    ins.push(v),
                                                    outs,
                                                )
                                            } else {
                                                spec_interface_vars(
                                                    rest,
                                                    decs,
                                                    vars,
                                                    names,
                                                    types,
                                                    ins,
                                                    outs.push(v),
                                                )
                                            }
                                        },
                                    }
                                },
                            }
                        },
                    }
                },
            }
        }
    }
}

/// The entry-point list: one record per `EntryPoint` instruction, in
/// document order, its execution modes filtered from the mode list.
pub open spec fn spec_entry_points(
    instrs: Seq<InstructionView>,
    decs: Seq<DecorationEntryView>,
    vars: Seq<(u32, u32, StorageClass)>,
    names: Seq<(u32, Seq<char>)>,
    types: Seq<(u32, TypeView)>,
    modes: Seq<(u32, ExecutionMode)>,
    acc: Seq<EntryPointView>,
) -> Result<Seq<EntryPointView>, ErrorView>
    decreases instrs.len(),
{
    if instrs.len() == 0 {
        Ok(acc)
    } else {
        match instrs[0] {
            InstructionView::EntryPoint { execution, id, name, interface } => {
                match spec_interface_vars(
                    interface,
                    decs,
                    vars,
                    names,
                    types,
                    Seq::empty(),
                    Seq::empty(),
                ) {
                    Err(e) => Err(e),
                    Ok((ins, outs)) => spec_entry_points(
                        instrs.drop_first(),
                        decs,
                        vars,
                        names,
                        types,
                        modes,
                        acc.push(
                            EntryPointView {
                                execution_model: execution,
                                id,
                                name,
                                execution_modes: modes_for(modes, id),
                                inputs: ins,
                                outputs: outs,
                            },
                        ),
                    ),
                }
            },
            _ => spec_entry_points(instrs.drop_first(), decs, vars, names, types, modes, acc),
        }
    }
}

fn interface_vars(
    interface: &Vec<u32>,
    decorations: &Vec<DecorationEntry>,
    variables: &Vec<(u32, u32, StorageClass)>,
    names: &Vec<(u32, String)>,
    types: &Vec<(u32, Type)>,
) -> (r: Result<(Vec<InterfaceVariable>, Vec<InterfaceVariable>), Error>)
    ensures
        match r {
            Ok(p) => spec_interface_vars(
                interface@,
                decorations@.map_values(|e: DecorationEntry| e@),
                variables@,
                names@.map_values(|q: (u32, String)| q@),
                types@.map_values(|q: (u32, Type)| (q.0, q.1.model())),
                Seq::empty(),
                Seq::empty(),
            ) == Ok::<_, ErrorView>(
                (
                    p.0@.map_values(|v: InterfaceVariable| v@),
                    p.1@.map_values(|v: InterfaceVariable| v@),
                ),
            ),
            Err(e) => spec_interface_vars(
                interface@,
                decorations@.map_values(|e: DecorationEntry| e@),
                variables@,
                names@.map_values(|q: (u32, String)| q@),
                types@.map_values(|q: (u32, Type)| (q.0, q.1.model())),
                Seq::empty(),
                Seq::empty(),
            ) == Err::<(Seq<InterfaceVariableView>, Seq<InterfaceVariableView>), _>(e@),
        },
{
    let ghost decs_m = decorations@.map_values(|e: DecorationEntry| e@);
    let ghost names_m = names@.map_values(|q: (u32, String)| q@);
    let ghost types_m = types@.map_values(|q: (u32, Type)| (q.0, q.1.model()));
    let mut ins: Vec<InterfaceVariable> = Vec::new();
    let mut outs: Vec<InterfaceVariable> = Vec::new();
    let mut i: usize = 0;
    proof {
        assert(interface@.skip(0) =~= interface@);
        assert(ins@.map_values(|v: InterfaceVariable| v@) =~= Seq::<
            InterfaceVariableView,
        >::empty());
        assert(outs@.map_values(|v: InterfaceVariable| v@) =~= Seq::<
            InterfaceVariableView,
        >::empty());
    }
    while i < interface.len()
        invariant
            i <= interface@.len(),
            decs_m == decorations@.map_values(|e: DecorationEntry| e@),
            names_m == names@.map_values(|q: (u32, String)| q@),
            types_m == types@.map_values(|q: (u32, Type)| (q.0, q.1.model())),
            spec_interface_vars(
                interface@,
                decs_m,
                variables@,
                names_m,
                types_m,
                Seq::empty(),
                Seq::empty(),
            ) == spec_interface_vars(
                interface@.skip(i as int),
                decs_m,
                variables@,
                names_m,
                types_m,
                ins@.map_values(|v: InterfaceVariable| v@),
                outs@.map_values(|v: InterfaceVariable| v@),
            ),
        decreases interface@.len() - i,
    {
        let ghost pre = interface@.skip(i as int);
        let ghost ins_model = ins@.map_values(|v: InterfaceVariable| v@);
        let ghost outs_model = outs@.map_values(|v: InterfaceVariable| v@);
        proof {
            assert(pre.drop_first() =~= interface@.skip(i + 1));
            assert(pre[0] == interface@[i as int]);
        }
        let iid = interface[i];
        let builtin = crate::tables::decoration_of(decorations, iid, Decoration::BuiltIn);
        if builtin.is_none() {
            let (type_id, sc) = match crate::tables::variable_of(variables, iid) {
                None => {
                    return Err(Error::UnresolvedReference { id: iid });
                },
                Some(v) => v,
            };
            if sc == StorageClass::Input || sc == StorageClass::Output {
                let name = match crate::tables::name_of(names, iid) {
                    None => {
                        return Err(Error::UnresolvedReference { id: iid });
                    },
                    Some(n) => n,
                };
                if name.as_str().is_empty() {
                    // an unnamed interface slot carries no attribute
                } else {
                    let loc = match crate::tables::decoration_of(
                        decorations,
                        iid,
                        Decoration::Location,
                    ) {
                        None => {
                            return Err(
                                Error::MissingDecoration {
                                    id: iid,
                                    decoration: Decoration::Location,
                                },
                            );
                        },
                        Some(l) => l,
                    };
                    if loc.len() == 0 {
                        return Err(
                            Error::MissingDecoration {
                                id: iid,
                                decoration: Decoration::Location,
                            },
                        );
                    }
                    let t = match crate::types::type_of(types, type_id) {
                        None => {
                            return Err(Error::UnresolvedReference { id: type_id });
                        },
                        Some(t) => t,
                    };
                    let v = InterfaceVariable { name, spirv_type: t, location: loc[0] };
                    let ghost vm = v@;
                    if sc == StorageClass::Input {
                        ins.push(v);
                        proof {
                            assert(ins@.map_values(|v: InterfaceVariable| v@) =~= ins_model.push(
                                vm,
                            ));
                        }
                    } else {
                        outs.push(v);
                        proof {
                            assert(outs@.map_values(|v: InterfaceVariable| v@) =~= outs_model
                                .push(vm));
                        }
                    }
                }
            }
        }
        i = i + 1;
    }
    proof {
        assert(interface@.skip(interface@.len() as int) =~= Seq::<u32>::empty());
    }
    Ok((ins, outs))
}

/// Derives the entry-point list from the instruction stream and the tables.
pub fn build_entry_points(
    instructions: &Vec<Instruction>,
    decorations: &Vec<DecorationEntry>,
    variables: &Vec<(u32, u32, StorageClass)>,
    names: &Vec<(u32, String)>,
    types: &Vec<(u32, Type)>,
    modes: &Vec<(u32, ExecutionMode)>,
) -> (r: Result<Vec<EntryPoint>, Error>)
    ensures
        match r {
            Ok(v) => spec_entry_points(
                instructions@.map_values(|ins: Instruction| ins@),
                decorations@.map_values(|e: DecorationEntry| e@),
                variables@,
                names@.map_values(|q: (u32, String)| q@),
                types@.map_values(|q: (u32, Type)| (q.0, q.1.model())),
                modes@,
                Seq::empty(),
            ) == Ok::<_, ErrorView>(v@.map_values(|p: EntryPoint| p@)),
            Err(e) => spec_entry_points(
                instructions@.map_values(|ins: Instruction| ins@),
                decorations@.map_values(|e: DecorationEntry| e@),
                variables@,
                names@.map_values(|q: (u32, String)| q@),
                types@.map_values(|q: (u32, Type)| (q.0, q.1.model())),
                modes@,
                Seq::empty(),
            ) == Err::<Seq<EntryPointView>, _>(e@),
        },
{
    let ghost all = instructions@.map_values(|ins: Instruction| ins@);
    let ghost decs_m = decorations@.map_values(|e: DecorationEntry| e@);
    let ghost names_m = names@.map_values(|q: (u32, String)| q@);
    let ghost types_m = types@.map_values(|q: (u32, Type)| (q.0, q.1.model()));
    let mut acc: Vec<EntryPoint> = Vec::new();
    let mut i: usize = 0;
    proof {
        assert(all.skip(0) =~= all);
        assert(acc@.map_values(|p: EntryPoint| p@) =~= Seq::<EntryPointView>::empty());
    }
    while i < instructions.len()
        invariant
            i <= instructions@.len(),
            all == instructions@.map_values(|ins: Instruction| ins@),
            decs_m == decorations@.map_values(|e: DecorationEntry| e@),
            names_m == names@.map_values(|q: (u32, String)| q@),
            types_m == types@.map_values(|q: (u32, Type)| (q.0, q.1.model())),
            spec_entry_points(all, decs_m, variables@, names_m, types_m, modes@, Seq::empty())
                == spec_entry_points(
                all.skip(i as int),
                decs_m,
                variables@,
                names_m,
                types_m,
                modes@,
                acc@.map_values(|p: EntryPoint| p@),
            ),
        decreases instructions@.len() - i,
    {
        let ghost pre = all.skip(i as int);
        let ghost acc_model = acc@.map_values(|p: EntryPoint| p@);
        proof {
            assert(pre.drop_first() =~= all.skip(i + 1));
            assert(pre[0] == instructions@[i as int]@);
        }
        match &instructions[i] {
            Instruction::EntryPoint { execution, id, name, interface } => {
                match interface_vars(interface, decorations, variables, names, types) {
                    Err(e) => {
                        return Err(e);
                    },
                    Ok((ins, outs)) => {
                        let ep = EntryPoint {
                            execution_model: *execution,
                            id: *id,
                            name: name.clone(),
                            execution_modes: crate::tables::modes_of(modes, *id),
                            inputs: ins,
                            outputs: outs,
                        };
                        let ghost epm = ep@;
                        acc.push(ep);
                        proof {
                            assert(acc@.map_values(|p: EntryPoint| p@) =~= acc_model.push(epm));
                        }
                    },
                }
            },
            _ => {},
        }
        i = i + 1;
    }
    proof {
        assert(all.skip(instructions@.len() as int) =~= Seq::<InstructionView>::empty());
    }
    Ok(acc)
}

/// What one instruction contributes to the specialization-constant list:
/// nothing unless it declares a specialization constant; then the constant
/// with its `SpecId`, name and host shape, or the first missing piece as an
/// error.
pub open spec fn spec_spec_constant_for(
    ins: InstructionView,
    decs: Seq<DecorationEntryView>,
    names: Seq<(u32, Seq<char>)>,
    types: Seq<(u32, TypeView)>,
) -> Option<Result<SpecializationConstantView, ErrorView>> {
    let decl: Option<(u32, u32, SpecializationConstantKindView)> = match ins {
        InstructionView::SpecConstantTrue { result_type_id, result_id } => Some(
            (result_type_id, result_id, SpecializationConstantKindView::True),
        ),
        InstructionView::SpecConstantFalse { result_type_id, result_id } => Some(
            (result_type_id, result_id, SpecializationConstantKindView::False),
        ),
        InstructionView::SpecConstant { result_type_id, result_id, data } => Some(
            (
                result_type_id,
                result_id,
                SpecializationConstantKindView::Scalar { default_value: data },
            ),
        ),
        InstructionView::SpecConstantComposite { result_type_id, result_id, data } => Some(
            (
                result_type_id,
                result_id,
                SpecializationConstantKindView::Composite { default_value: data },
            ),
        ),
        _ => None,
    };
    match decl {
        None => None,
        Some((result_type_id, result_id, kind)) => match lookup_decoration(
            decs,
            result_id,
            Decoration::SpecId,
        ) {
            None => Some(
                Err(
                    ErrorView::MissingDecoration {
                        id: result_id,
                        decoration: Decoration::SpecId,
                    },
                ),
            ),
            Some(p) => if p.len() == 0 {
                Some(
                    Err(
                        ErrorView::MissingDecoration {
                            id: result_id,
                            decoration: Decoration::SpecId,
                        },
                    ),
                )
            } else {
                match lookup_name(names, result_id) {
                    None => Some(Err(ErrorView::UnresolvedReference { id: result_id })),
                    Some(name) => match lookup_type(types, result_type_id) {
                        None => Some(Err(ErrorView::UnresolvedReference { id: result_type_id })),
                        Some(t) => match spec_rust_type(t) {
                            None => Some(Err(ErrorView::UnsizedType)),
                            Some(rt) => match rt.size {
                                None => Some(Err(ErrorView::UnsizedType)),
                                Some(sz) => Some(
                                    Ok(
                                        SpecializationConstantView {
                                            constant_id: p[0],
                                            name,
                                            kind,
                                            spirv_type: t,
                                            rust_type: rt,
                                            rust_size: sz,
                                        },
                                    ),
                                ),
                            },
                        },
                    },
                }
            },
        },
    }
}

/// The specialization constants in declaration order, before sorting.
pub open spec fn spec_spec_constants(
    instrs: Seq<InstructionView>,
    decs: Seq<DecorationEntryView>,
    names: Seq<(u32, Seq<char>)>,
    types: Seq<(u32, TypeView)>,
    acc: Seq<SpecializationConstantView>,
) -> Result<Seq<SpecializationConstantView>, ErrorView>
    decreases instrs.len(),
{
    if instrs.len() == 0 {
        Ok(acc)
    } else {
        match spec_spec_constant_for(instrs[0], decs, names, types) {
            None => spec_spec_constants(instrs.drop_first(), decs, names, types, acc),
            Some(Err(e)) => Err(e),
            Some(Ok(c)) => spec_spec_constants(
                instrs.drop_first(),
                decs,
                names,
                types,
                acc.push(c),
            ),
        }
    }
}

/// Where a constant lands among already-sorted constants: before every
/// strictly greater id, after everything else, so equal ids keep their
/// declaration order.
pub open spec fn insert_by_id(
    s: Seq<SpecializationConstantView>,
    c: SpecializationConstantView,
) -> Seq<SpecializationConstantView>
    decreases s.len(),
{
    if s.len() == 0 {
        seq![c]
    } else if c.constant_id < s.last().constant_id {
        insert_by_id(s.drop_last(), c).push(s.last())
    } else {
        s.push(c)
    }
}

/// The constants sorted by their constant id, stably.
pub open spec fn sort_by_id(s: Seq<SpecializationConstantView>) -> Seq<
    SpecializationConstantView,
>
    decreases s.len(),
{
    if s.len() == 0 {
        Seq::empty()
    } else {
        insert_by_id(sort_by_id(s.drop_last()), s.last())
    }
}

/// Inserting at the position the ids pick is inserting at that index.
proof fn lemma_insert_by_id(
    s: Seq<SpecializationConstantView>,
    c: SpecializationConstantView,
    p: int,
)
    requires
        0 <= p <= s.len(),
        forall|j: int| p <= j < s.len() ==> s[j].constant_id > c.constant_id,
        p > 0 ==> s[p - 1].constant_id <= c.constant_id,
    ensures
        insert_by_id(s, c) == s.take(p) + seq![c] + s.skip(p),
    decreases s.len(),
{
    if s.len() == 0 {
        assert(insert_by_id(s, c) =~= s.take(p) + seq![c] + s.skip(p));
    } else if c.constant_id < s.last().constant_id {
        assert(p <= s.len() - 1);
        lemma_insert_by_id(s.drop_last(), c, p);
        assert(s.drop_last().take(p) =~= s.take(p));
        assert((s.drop_last().take(p) + seq![c] + s.drop_last().skip(p)).push(s.last()) =~= s
            .take(p) + seq![c] + s.skip(p));
    } else {
        assert(p == s.len());
        assert(insert_by_id(s, c) == s.push(c));
        assert(s.push(c) =~= s.take(p) + seq![c] + s.skip(p));
    }
}

/// Sorts the specialization constants by constant id, stably.
pub fn sort_spec_constants(list: Vec<SpecializationConstant>) -> (r: Vec<SpecializationConstant>)
    ensures
        r@.map_values(|c: SpecializationConstant| c@) == sort_by_id(
            list@.map_values(|c: SpecializationConstant| c@),
        ),
{
    let ghost input = list@.map_values(|c: SpecializationConstant| c@);
    let mut rest = list;
    let mut sorted: Vec<SpecializationConstant> = Vec::new();
    proof {
        assert(input.take(0) =~= Seq::<SpecializationConstantView>::empty());
        assert(sorted@.map_values(|c: SpecializationConstant| c@) =~= sort_by_id(input.take(0)));
        assert(rest@.map_values(|c: SpecializationConstant| c@) =~= input.skip(0));
    }
    while rest.len() > 0
        invariant
            rest@.len() <= input.len(),
            rest@.map_values(|c: SpecializationConstant| c@) == input.skip(
                input.len() - rest@.len(),
            ),
            sorted@.map_values(|c: SpecializationConstant| c@) == sort_by_id(
                input.take(input.len() - rest@.len()),
            ),
        decreases rest@.len(),
    {
        let ghost i = input.len() - rest@.len();
        let ghost sorted_m = sorted@.map_values(|c: SpecializationConstant| c@);
        let ghost rest_before = rest@;
        let c = rest.remove(0);
        let ghost cm = c@;
        proof {
            assert(rest_before.map_values(|c: SpecializationConstant| c@)[0] == rest_before[0]@);
            assert(cm == input.skip(i)[0]);
            assert(cm == input[i]);
            assert(rest@ =~= rest_before.drop_first());
            assert(rest@.map_values(|c: SpecializationConstant| c@) =~= rest_before.map_values(
                |c: SpecializationConstant| c@,
            ).drop_first());
            assert(rest@.map_values(|c: SpecializationConstant| c@) =~= input.skip(i + 1));
            assert(input.take(i + 1).drop_last() =~= input.take(i));
            assert(input.take(i + 1).last() == input[i]);
        }
        let mut pos: usize = sorted.len();
        while pos > 0 && c.constant_id < sorted[pos - 1].constant_id
            invariant
                pos <= sorted@.len(),
                forall|j: int| pos <= j < sorted@.len()
                    ==> sorted@[j].constant_id > c.constant_id,
            decreases pos,
        {
            pos = pos - 1;
        }
        proof {
            assert forall|j: int| pos <= j < sorted_m.len() implies sorted_m[j].constant_id
                > cm.constant_id by {
                assert(sorted_m[j] == sorted@[j]@);
            }
            if pos > 0 {
                assert(sorted_m[pos - 1] == sorted@[pos - 1]@);
            }
            lemma_insert_by_id(sorted_m, cm, pos as int);
        }
        sorted.insert(pos, c);
        proof {
            assert(sorted@.map_values(|c: SpecializationConstant| c@) =~= sorted_m.take(
                pos as int,
            ) + seq![cm] + sorted_m.skip(pos as int));
        }
    }
    proof {
        assert(input.take(input.len() as int) =~= input);
    }
    sorted
}

/// Collects the specialization constants, sorted by constant id.
pub fn build_spec_constants(
    instructions: &Vec<Instruction>,
    decorations: &Vec<DecorationEntry>,
    names: &Vec<(u32, String)>,
    types: &Vec<(u32, Type)>,
) -> (r: Result<Vec<SpecializationConstant>, Error>)
    ensures
        match r {
            Ok(v) => {
                &&& spec_spec_constants(
                    instructions@.map_values(|ins: Instruction| ins@),
                    decorations@.map_values(|e: DecorationEntry| e@),
                    names@.map_values(|q: (u32, String)| q@),
                    types@.map_values(|q: (u32, Type)| (q.0, q.1.model())),
                    Seq::empty(),
                ) is Ok
                &&& v@.map_values(|c: SpecializationConstant| c@) == sort_by_id(
                    spec_spec_constants(
                        instructions@.map_values(|ins: Instruction| ins@),
                        decorations@.map_values(|e: DecorationEntry| e@),
                        names@.map_values(|q: (u32, String)| q@),
                        types@.map_values(|q: (u32, Type)| (q.0, q.1.model())),
                        Seq::empty(),
                    )->Ok_0,
                )
            },
            Err(e) => spec_spec_constants(
                instructions@.map_values(|ins: Instruction| ins@),
                decorations@.map_values(|e: DecorationEntry| e@),
                names@.map_values(|q: (u32, String)| q@),
                types@.map_values(|q: (u32, Type)| (q.0, q.1.model())),
                Seq::empty(),
            ) == Err::<Seq<SpecializationConstantView>, _>(e@),
        },
{
    let ghost all = instructions@.map_values(|ins: Instruction| ins@);
    let ghost decs_m = decorations@.map_values(|e: DecorationEntry| e@);
    let ghost names_m = names@.map_values(|q: (u32, String)| q@);
    let ghost types_m = types@.map_values(|q: (u32, Type)| (q.0, q.1.model()));
    let mut acc: Vec<SpecializationConstant> = Vec::new();
    let mut i: usize = 0;
    proof {
        assert(all.skip(0) =~= all);
        assert(acc@.map_values(|c: SpecializationConstant| c@) =~= Seq::<
            SpecializationConstantView,
        >::empty());
    }
    while i < instructions.len()
        invariant
            i <= instructions@.len(),
            all == instructions@.map_values(|ins: Instruction| ins@),
            decs_m == decorations@.map_values(|e: DecorationEntry| e@),
            names_m == names@.map_values(|q: (u32, String)| q@),
            types_m == types@.map_values(|q: (u32, Type)| (q.0, q.1.model())),
            spec_spec_constants(all, decs_m, names_m, types_m, Seq::empty())
                == spec_spec_constants(
                all.skip(i as int),
                decs_m,
                names_m,
                types_m,
                acc@.map_values(|c: SpecializationConstant| c@),
            ),
        decreases instructions@.len() - i,
    {
        let ghost pre = all.skip(i as int);
        let ghost acc_model = acc@.map_values(|c: SpecializationConstant| c@);
        proof {
            assert(pre.drop_first() =~= all.skip(i + 1));
            assert(pre[0] == instructions@[i as int]@);
        }
        let decl: Option<(u32, u32, SpecializationConstantKind)> = match &instructions[i] {
            Instruction::SpecConstantTrue { result_type_id, result_id } => Some(
                (*result_type_id, *result_id, SpecializationConstantKind::True),
            ),
            Instruction::SpecConstantFalse { result_type_id, result_id } => Some(
                (*result_type_id, *result_id, SpecializationConstantKind::False),
            ),
            Instruction::SpecConstant { result_type_id, result_id, data } => {
                let copied = crate::parse::copy_range(data, 0, data.len());
                proof {
                    assert(copied@ =~= data@);
                }
                Some(
                    (
                        *result_type_id,
                        *result_id,
                        SpecializationConstantKind::Scalar { default_value: copied },
                    ),
                )
            },
            Instruction::SpecConstantComposite { result_type_id, result_id, data } => {
                let copied = crate::parse::copy_range(data, 0, data.len());
                proof {
                    assert(copied@ =~= data@);
                }
                Some(
                    (
                        *result_type_id,
                        *result_id,
                        SpecializationConstantKind::Composite { default_value: copied },
                    ),
                )
            },
            _ => None,
        };
        match decl {
            None => {},
            Some((result_type_id, result_id, kind)) => {
                let p = match crate::tables::decoration_of(
                    decorations,
                    result_id,
                    Decoration::SpecId,
                ) {
                    None => {
                        return Err(
                            Error::MissingDecoration {
                                id: result_id,
                                decoration: Decoration::SpecId,
                            },
                        );
                    },
                    Some(p) => p,
                };
                if p.len() == 0 {
                    return Err(
                        Error::MissingDecoration {
                            id: result_id,
                            decoration: Decoration::SpecId,
                        },
                    );
                }
                let name = match crate::tables::name_of(names, result_id) {
                    None => {
                        return Err(Error::UnresolvedReference { id: result_id });
                    },
                    Some(n) => n,
                };
                let t = match crate::types::type_of(types, result_type_id) {
                    None => {
                        return Err(Error::UnresolvedReference { id: result_type_id });
                    },
                    Some(t) => t,
                };
                let rt = match t.rust_type() {
                    None => {
                        return Err(Error::UnsizedType);
                    },
                    Some(rt) => rt,
                };
                let sz = match rt.size {
                    None => {
                        return Err(Error::UnsizedType);
                    },
                    Some(sz) => sz,
                };
                let c = SpecializationConstant {
                    constant_id: p[0],
                    name,
                    kind,
                    spirv_type: t,
                    rust_type: rt,
                    rust_size: sz,
                };
                let ghost cm = c@;
                acc.push(c);
                proof {
                    assert(acc@.map_values(|c: SpecializationConstant| c@) =~= acc_model.push(
                        cm,
                    ));
                }
            },
        }
        i = i + 1;
    }
    proof {
        assert(all.skip(instructions@.len() as int) =~= Seq::<InstructionView>::empty());
    }
    Ok(sort_spec_constants(acc))
}

/// The reflection model of one binary: the decoded document, the symbol
/// tables, the resolved types, and every derived list.
#[derive(Debug, Clone, PartialEq, Eq)]
pub struct Shader {
    /// The decoded document the model was built from.
    pub spirv: Spirv,
    /// The device capabilities the binary declares, first occurrence first.
    pub capabilities: Vec<Capability>,
    /// The entry points, in document order.
    pub entry_points: Vec<EntryPoint>,
    /// The specialization constants, sorted by constant id.
    pub specialization_constants: Vec<SpecializationConstant>,
    /// The whole-object decoration table.
    pub decorations: Vec<DecorationEntry>,
    /// The per-member decoration table.
    pub member_decorations: Vec<MemberDecorationEntry>,
    /// The resolved types, keyed by id, in declaration order.
    pub types: Vec<(u32, Type)>,
    /// The descriptor bindings.
    pub descriptors: Vec<NewDescriptor>,
    /// The pointee types of the push-constant pointers.
    pub push_constants: Vec<Type>,
}

pub struct ShaderView {
    pub spirv: SpirvView,
    pub capabilities: Seq<Capability>,
    pub entry_points: Seq<EntryPointView>,
    pub specialization_constants: Seq<SpecializationConstantView>,
    pub decorations: Seq<DecorationEntryView>,
    pub member_decorations: Seq<MemberDecorationEntryView>,
    pub types: Seq<(u32, TypeView)>,
    pub descriptors: Seq<NewDescriptorView>,
    pub push_constants: Seq<TypeView>,
}

impl View for Shader {
    type V = ShaderView;

    open spec fn view(&self) -> ShaderView {
        ShaderView {
            spirv: self.spirv@,
            capabilities: self.capabilities@,
            entry_points: self.entry_points@.map_values(|p: EntryPoint| p@),
            specialization_constants: self.specialization_constants@.map_values(
                |c: SpecializationConstant| c@,
            ),
            decorations: self.decorations@.map_values(|e: DecorationEntry| e@),
            member_decorations: self.member_decorations@.map_values(
                |e: MemberDecorationEntry| e@,
            ),
            types: self.types@.map_values(|p: (u32, Type)| (p.0, p.1.model())),
            descriptors: self.descriptors@.map_values(|d: NewDescriptor| d@),
            push_constants: type_models(self.push_constants@),
        }
    }
}

/// The whole model a decoded document yields, or the first error the
/// derivation meets: a duplicate name or type declaration, a reference to
/// an id nothing declares, a missing mandatory decoration, a descriptor
/// variable that is no pointer, or a specialization constant without a
/// host size.
pub open spec fn spec_from_spirv(doc: SpirvView) -> Result<ShaderView, ErrorView> {
    let instrs = doc.instructions;
    let caps = spec_capabilities(instrs, Seq::empty());
    let decs = spec_decorations(instrs, Seq::empty());
    let mdecs = spec_member_decorations(instrs, Seq::empty());
    let vars = spec_variables(instrs, Seq::empty());
    let modes = spec_execution_modes(instrs, Seq::empty());
    match spec_names(instrs, Seq::empty()) {
        Err(e) => Err(e),
        Ok(names) => match spec_extract_types(instrs, names, decs) {
            Err(e) => Err(e),
            Ok(types) => match spec_descriptors(decs, decs, vars, types, names, Seq::empty()) {
                Err(e) => Err(e),
                Ok(descriptors) => match spec_entry_points(
                    instrs,
                    decs,
                    vars,
                    names,
                    types,
                    modes,
                    Seq::empty(),
                ) {
                    Err(e) => Err(e),
                    Ok(entry_points) => match spec_spec_constants(
                        instrs,
                        decs,
                        names,
                        types,
                        Seq::empty(),
                    ) {
                        Err(e) => Err(e),
                        Ok(scs) => Ok(
                            ShaderView {
                                spirv: doc,
                                capabilities: caps,
                                entry_points,
                                specialization_constants: sort_by_id(scs),
                                decorations: decs,
                                member_decorations: mdecs,
                                types,
                                descriptors,
                                push_constants: spec_push_constants(types, Seq::empty()),
                            },
                        ),
                    },
                },
            },
        },
    }
}

impl Shader {
    /// The parameters `decoration` carries on `target_id`, if it is there.
    pub fn _decoration(&self, target_id: u32, decoration: Decoration) -> (r: Option<Vec<u32>>)
        ensures
            match r {
                Some(params) => lookup_decoration(self@.decorations, target_id, decoration)
                    == Some(params@),
                None => lookup_decoration(self@.decorations, target_id, decoration) is None,
            },
    {
        crate::tables::decoration_of(&self.decorations, target_id, decoration)
    }

    /// The parameters `decoration` carries on one member of `target_id`.
    pub fn _member_decoration(
        &self,
        target_id: u32,
        member_number: u32,
        decoration: Decoration,
    ) -> (r: Option<Vec<u32>>)
        ensures
            match r {
                Some(params) => lookup_member_decoration(
                    self@.member_decorations,
                    target_id,
                    member_number,
                    decoration,
                ) == Some(params@),
                None => lookup_member_decoration(
                    self@.member_decorations,
                    target_id,
                    member_number,
                    decoration,
                ) is None,
            },
    {
        crate::tables::member_decoration_of(
            &self.member_decorations,
            target_id,
            member_number,
            decoration,
        )
    }

    /// Builds the reflection model from a decoded document: one pass for
    /// the symbol tables, the type section resolved, and the descriptor,
    /// entry-point and specialization-constant lists derived.
    pub fn from_spirv(spirv: Spirv) -> (r: Result<Shader, Error>)
        ensures
            crate::res_view(r) == spec_from_spirv(spirv@),
    {
        let capabilities = crate::tables::build_capabilities(&spirv.instructions);
        let decorations = crate::tables::build_decorations(&spirv.instructions);
        let member_decorations = crate::tables::build_member_decorations(&spirv.instructions);
        let variables = crate::tables::build_variables(&spirv.instructions);
        let modes = crate::tables::build_execution_modes(&spirv.instructions);
        let names = match crate::tables::build_names(&spirv.instructions) {
            Err(e) => {
                return Err(e);
            },
            Ok(n) => n,
        };
        let types = match crate::types::extract_types(&spirv.instructions, &names, &decorations) {
            Err(e) => {
                return Err(e);
            },
            Ok(t) => t,
        };
        let descriptors = match build_descriptors(&decorations, &variables, &types, &names) {
            Err(e) => {
                return Err(e);
            },
            Ok(d) => d,
        };
        let entry_points = match build_entry_points(
            &spirv.instructions,
            &decorations,
            &variables,
            &names,
            &types,
            &modes,
        ) {
            Err(e) => {
                return Err(e);
            },
            Ok(eps) => eps,
        };
        let specialization_constants = match build_spec_constants(
            &spirv.instructions,
            &decorations,
            &names,
            &types,
        ) {
            Err(e) => {
                return Err(e);
            },
            Ok(scs) => scs,
        };
        let push_constants = build_push_constants(&types);
        Ok(
            Shader {
                spirv,
                capabilities,
                entry_points,
                specialization_constants,
                decorations,
                member_decorations,
                types,
                descriptors,
                push_constants,
            },
        )
    }
}

} // verus!
