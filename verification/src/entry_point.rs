//! Entry points and their interface variables, as the symbol pass derives
//! them: one record per `EntryPoint` instruction, with the referenced
//! interface ids partitioned into inputs and outputs by storage class.

use vstd::prelude::*;

use crate::enums::{ExecutionMode, ExecutionModel};
use crate::text::{spec_capitalize, capitalize};
use crate::types::{spec_format, spec_occupied, Type, TypeView};
use crate::{Error, ErrorView};
use vstd::string::StringExecFns;

verus! {

broadcast use {vstd::std_specs::vec::group_vec_axioms, vstd::seq::group_seq_axioms};

/// A per-stage input or output attribute: its name, its resolved (pointer)
/// type, and the location its decoration assigns.
#[derive(Debug, Clone, PartialEq, Eq)]
pub struct InterfaceVariable {
    pub name: String,
    pub spirv_type: Type,
    pub location: u32,
}

pub struct InterfaceVariableView {
    pub name: Seq<char>,
    pub spirv_type: TypeView,
    pub location: u32,
}

impl View for InterfaceVariable {
    type V = InterfaceVariableView;

    open spec fn view(&self) -> InterfaceVariableView {
        InterfaceVariableView {
            name: self.name@,
            spirv_type: self.spirv_type@,
            location: self.location,
        }
    }
}

/// A named function the binary exposes to one shader stage, with its
/// execution modes and its input and output interface variables in
/// declaration order.
#[derive(Debug, Clone, PartialEq, Eq)]
pub struct EntryPoint {
    pub execution_model: ExecutionModel,
    pub id: u32,
    pub name: String,
    pub execution_modes: Vec<ExecutionMode>,
    pub inputs: Vec<InterfaceVariable>,
    pub outputs: Vec<InterfaceVariable>,
}

pub struct EntryPointView {
    pub execution_model: ExecutionModel,
    pub id: u32,
    pub name: Seq<char>,
    pub execution_modes: Seq<ExecutionMode>,
    pub inputs: Seq<InterfaceVariableView>,
    pub outputs: Seq<InterfaceVariableView>,
}

impl View for EntryPoint {
    type V = EntryPointView;

    open spec fn view(&self) -> EntryPointView {
        EntryPointView {
            execution_model: self.execution_model,
            id: self.id,
            name: self.name@,
            execution_modes: self.execution_modes@,
            inputs: self.inputs@.map_values(|v: InterfaceVariable| v@),
            outputs: self.outputs@.map_values(|v: InterfaceVariable| v@),
        }
    }
}

/// One row of a stage's attribute table: location, name, format name, and
/// how many consecutive locations it occupies.
#[derive(Debug, Clone, PartialEq, Eq)]
pub struct InterfaceElement {
    pub location: u32,
    pub name: String,
    pub format: String,
    pub occupied: usize,
}

pub struct InterfaceElementView {
    pub location: u32,
    pub name: Seq<char>,
    pub format: Seq<char>,
    pub occupied: usize,
}

impl View for InterfaceElement {
    type V = InterfaceElementView;

    open spec fn view(&self) -> InterfaceElementView {
        InterfaceElementView {
            location: self.location,
            name: self.name@,
            format: self.format@,
            occupied: self.occupied,
        }
    }
}

/// Whether a stage's input interface variables carry an outer array level
/// standing for per-primitive replication, to be stripped before the
/// attribute shape is read.
pub open spec fn strips_input_array(m: ExecutionModel) -> bool {
    m == ExecutionModel::TessellationControl || m == ExecutionModel::TessellationEvaluation
        || m == ExecutionModel::Geometry
}

/// Whether a stage's output interface variables carry that array level.
pub open spec fn strips_output_array(m: ExecutionModel) -> bool {
    m == ExecutionModel::TessellationControl
}

/// The attribute shape of an interface variable's type: its format name and
/// slot count. Pointers pass through; with `strip` set the outer array is
/// removed first, and a non-array type there is an `ArrayStripMismatch`. A
/// type with no format or no slots is an `UnsizedType`.
pub open spec fn spec_attribute_shape(t: TypeView, strip: bool) -> Result<
    (Seq<char>, usize),
    ErrorView,
>
    decreases t,
{
    match t {
        TypeView::Pointer { pointee_type, .. } => spec_attribute_shape(*pointee_type, strip),
        TypeView::Array { element_type, .. } => if strip {
            spec_attribute_shape(*element_type, false)
        } else {
            spec_attribute_shape_leaf(t)
        },
        _ => if strip {
            Err(ErrorView::ArrayStripMismatch)
        } else {
            spec_attribute_shape_leaf(t)
        },
    }
}

/// The attribute shape of a type taken as it stands.
pub open spec fn spec_attribute_shape_leaf(t: TypeView) -> Result<(Seq<char>, usize), ErrorView> {
    match spec_format(t) {
        None => Err(ErrorView::UnsizedType),
        Some(f) => match spec_occupied(t) {
            None => Err(ErrorView::UnsizedType),
            Some(n) => if n == 0 {
                Err(ErrorView::UnsizedType)
            } else {
                Ok((f, n as usize))
            },
        },
    }
}

/// Reads the attribute shape of one interface variable's type.
pub fn attribute_shape(t: &Type, strip: bool) -> (r: Result<(String, usize), Error>)
    ensures
        match r {
            Ok(p) => spec_attribute_shape(t.model(), strip) == Ok::<_, ErrorView>(
                (p.0@, p.1),
            ),
            Err(e) => spec_attribute_shape(t.model(), strip) == Err::<(Seq<char>, usize), _>(
                e@,
            ),
        },
    decreases t,
{
    match t {
        Type::Pointer { pointee_type, .. } => attribute_shape(pointee_type, strip),
        Type::Array { element_type, .. } => {
            if strip {
                attribute_shape(element_type, false)
            } else {
                attribute_shape_leaf(t)
            }
        },
        _ => {
            if strip {
                Err(Error::ArrayStripMismatch)
            } else {
                attribute_shape_leaf(t)
            }
        },
    }
}

fn attribute_shape_leaf(t: &Type) -> (r: Result<(String, usize), Error>)
    ensures
        match r {
            Ok(p) => spec_attribute_shape_leaf(t.model()) == Ok::<_, ErrorView>((p.0@, p.1)),
            Err(e) => spec_attribute_shape_leaf(t.model()) == Err::<(Seq<char>, usize), _>(e@),
        },
{
    let f = match t.format() {
        None => {
            return Err(Error::UnsizedType);
        },
        Some(f) => f,
    };
    proof {
        crate::types::lemma_occupied_bound(t.model());
    }
    match t.occupied_locations() {
        None => Err(Error::UnsizedType),
        Some(n) => if n == 0 {
            Err(Error::UnsizedType)
        } else {
            Ok((f, n))
        },
    }
}

/// The attribute rows of one direction of an entry point's interface.
pub open spec fn spec_interface_elements(vars: Seq<InterfaceVariableView>, strip: bool) -> Result<
    Seq<InterfaceElementView>,
    ErrorView,
>
    decreases vars.len(),
{
    if vars.len() == 0 {
        Ok(Seq::empty())
    } else {
        let v = vars[0];
        match spec_attribute_shape(v.spirv_type, strip) {
            Err(e) => Err(e),
            Ok((f, n)) => {
                let elem = InterfaceElementView {
                    location: v.location,
                    name: v.name,
                    format: f,
                    occupied: n,
                };
                match spec_interface_elements(vars.drop_first(), strip) {
                    Ok(rest) => Ok(seq![elem] + rest),
                    Err(e) => Err(e),
                }
            },
        }
    }
}

/// Derives the attribute rows of one direction of an interface.
pub fn interface_elements(vars: &Vec<InterfaceVariable>, strip: bool) -> (r: Result<
    Vec<InterfaceElement>,
    Error,
>)
    ensures
        match r {
            Ok(v) => spec_interface_elements(
                vars@.map_values(|v: InterfaceVariable| v@),
                strip,
            ) == Ok::<_, ErrorView>(v@.map_values(|e: InterfaceElement| e@)),
            Err(e) => spec_interface_elements(vars@.map_values(|v: InterfaceVariable| v@), strip)
                == Err::<Seq<InterfaceElementView>, _>(e@),
        },
{
    let ghost all = vars@.map_values(|v: InterfaceVariable| v@);
    let mut acc: Vec<InterfaceElement> = Vec::new();
    let mut i: usize = 0;
    proof {
        assert(all.skip(0) =~= all);
        assert(acc@.map_values(|e: InterfaceElement| e@) =~= Seq::<InterfaceElementView>::empty());
    }
    while i < vars.len()
        invariant
            i <= all.len(),
            all == vars@.map_values(|v: InterfaceVariable| v@),
            match spec_interface_elements(all.skip(i as int), strip) {
                Ok(rest) => spec_interface_elements(all, strip) == Ok::<_, ErrorView>(
                    acc@.map_values(|e: InterfaceElement| e@) + rest,
                ),
                Err(e) => spec_interface_elements(all, strip) == Err::<
                    Seq<InterfaceElementView>,
                    _,
                >(e),
            },
        decreases all.len() - i,
    {
        let ghost pre = all.skip(i as int);
        let ghost acc_model = acc@.map_values(|e: InterfaceElement| e@);
        proof {
            assert(pre.drop_first() =~= all.skip(i + 1));
            assert(pre[0] == vars@[i as int]@);
        }
        let v = &vars[i];
        match attribute_shape(&v.spirv_type, strip) {
            Err(e) => {
                return Err(e);
            },
            Ok((f, n)) => {
                let elem = InterfaceElement {
                    location: v.location,
                    name: v.name.clone(),
                    format: f,
                    occupied: n,
                };
                let ghost em = elem@;
                acc.push(elem);
                proof {
                    assert(acc@.map_values(|e: InterfaceElement| e@) =~= acc_model.push(em));
                    if let Ok(rest) = spec_interface_elements(all.skip(i + 1), strip) {
                        assert(acc_model + (seq![em] + rest) =~= acc_model.push(em) + rest);
                    }
                }
            },
        }
        i = i + 1;
    }
    proof {
        assert(all.skip(all.len() as int) =~= Seq::<InterfaceVariableView>::empty());
        if let Ok(rest) = spec_interface_elements(all.skip(all.len() as int), strip) {
            assert(acc@.map_values(|e: InterfaceElement| e@) + rest =~= acc@.map_values(
                |e: InterfaceElement| e@,
            ));
        }
    }
    Ok(acc)
}

/// Whether two attribute rows claim a common location slot.
pub open spec fn spec_overlap(a: InterfaceElementView, b: InterfaceElementView) -> bool {
    a.location == b.location || (a.location < b.location && a.location + a.occupied > b.location)
        || (b.location < a.location && b.location + b.occupied > a.location)
}

/// The first overlapping pair at or after position (i, j) in the pairwise
/// scan, if any.
pub open spec fn spec_first_overlap(elems: Seq<InterfaceElementView>, i: int, j: int) -> Option<
    (int, int),
>
    decreases elems.len() - i, elems.len() - j,
{
    if i < 0 || j <= i || i >= elems.len() {
        None
    } else if j >= elems.len() {
        spec_first_overlap(elems, i + 1, i + 2)
    } else if spec_overlap(elems[i], elems[j]) {
        Some((i, j))
    } else {
        spec_first_overlap(elems, i, j + 1)
    }
}

/// The overlap verdict on one attribute table: `Ok` when every pair of rows
/// keeps disjoint location ranges, else the first conflicting pair's names.
pub open spec fn spec_validate_elements(elems: Seq<InterfaceElementView>) -> Result<
    (),
    ErrorView,
> {
    match spec_first_overlap(elems, 0, 1) {
        None => Ok(()),
        Some((i, j)) => Err(
            ErrorView::OverlappingInterfaceLocations {
                first: elems[i].name,
                second: elems[j].name,
            },
        ),
    }
}

/// The scan finds nothing exactly when no pair in its remaining region
/// overlaps.
pub proof fn lemma_first_overlap_none(elems: Seq<InterfaceElementView>, i: int, j: int)
    requires
        0 <= i,
        i < j,
    ensures
        spec_first_overlap(elems, i, j) is None <==> ((forall|b: int|
            j <= b < elems.len() ==> !spec_overlap(elems[i], #[trigger] elems[b])) && (forall|
            a: int,
            b: int,
        |
            i < a < b < elems.len() ==> !spec_overlap(#[trigger] elems[a], #[trigger] elems[b]))),
    decreases elems.len() - i, elems.len() - j,
{
    if i >= elems.len() {
    } else if j >= elems.len() {
        lemma_first_overlap_none(elems, i + 1, i + 2);
    } else if spec_overlap(elems[i], elems[j]) {
    } else {
        lemma_first_overlap_none(elems, i, j + 1);
    }
}

/// No two rows of a validated attribute table claim a common slot: the
/// verdict is `Ok` exactly when every pair of rows is disjoint.
pub proof fn lemma_validate_elements_no_overlap(elems: Seq<InterfaceElementView>)
    ensures
        spec_validate_elements(elems) is Ok <==> (forall|a: int, b: int|
            0 <= a < b < elems.len() ==> !spec_overlap(#[trigger] elems[a], #[trigger] elems[b])),
{
    lemma_first_overlap_none(elems, 0, 1);
}

/// Checks an attribute table for overlapping location ranges, reporting the
/// first conflicting pair by name.
pub fn validate_elements(elems: &Vec<InterfaceElement>) -> (r: Result<(), Error>)
    ensures
        match r {
            Ok(()) => spec_validate_elements(elems@.map_values(|e: InterfaceElement| e@))
                is Ok,
            Err(e) => spec_validate_elements(elems@.map_values(|e: InterfaceElement| e@))
                == Err::<(), _>(e@),
        },
{
    let ghost all = elems@.map_values(|e: InterfaceElement| e@);
    let mut i: usize = 0;
    while i < elems.len()
        invariant
            all == elems@.map_values(|e: InterfaceElement| e@),
            spec_first_overlap(all, 0, 1) == spec_first_overlap(all, i as int, i as int + 1),
        decreases all.len() - i,
    {
        let mut j: usize = i + 1;
        while j < elems.len()
            invariant
                i < j,
                i < elems.len(),
                all == elems@.map_values(|e: InterfaceElement| e@),
                spec_first_overlap(all, 0, 1) == spec_first_overlap(all, i as int, j as int),
            decreases all.len() - j,
        {
            let a = &elems[i];
            let b = &elems[j];
            let overlap = a.location == b.location || (a.location < b.location && (
            a.location as u128) + (a.occupied as u128) > b.location as u128) || (b.location
                < a.location && (b.location as u128) + (b.occupied as u128) > a.location as u128);
            proof {
                assert(all[i as int] == elems@[i as int]@);
                assert(all[j as int] == elems@[j as int]@);
                assert(overlap == spec_overlap(all[i as int], all[j as int]));
            }
            if overlap {
                return Err(
                    Error::OverlappingInterfaceLocations {
                        first: a.name.clone(),
                        second: b.name.clone(),
                    },
                );
            }
            j = j + 1;
        }
        i = i + 1;
    }
    proof {
        assert(spec_first_overlap(all, elems@.len() as int, elems@.len() as int + 1) is None);
    }
    Ok(())
}

/// One entry point's validated interface description: its name, its stage,
/// and its input and output attribute tables, each free of overlapping
/// locations.
#[derive(Debug, Clone, PartialEq, Eq)]
pub struct EntryPointInterface {
    pub name: String,
    pub execution_model: ExecutionModel,
    pub inputs: Vec<InterfaceElement>,
    pub outputs: Vec<InterfaceElement>,
}

pub struct EntryPointInterfaceView {
    pub name: Seq<char>,
    pub execution_model: ExecutionModel,
    pub inputs: Seq<InterfaceElementView>,
    pub outputs: Seq<InterfaceElementView>,
}

impl View for EntryPointInterface {
    type V = EntryPointInterfaceView;

    open spec fn view(&self) -> EntryPointInterfaceView {
        EntryPointInterfaceView {
            name: self.name@,
            execution_model: self.execution_model,
            inputs: self.inputs@.map_values(|e: InterfaceElement| e@),
            outputs: self.outputs@.map_values(|e: InterfaceElement| e@),
        }
    }
}

/// A named attribute table, one per direction of an entry point, named
/// after the capitalized entry point.
#[derive(Debug, Clone, PartialEq, Eq)]
pub struct InterfaceStruct {
    pub name: String,
    pub elements: Vec<InterfaceElement>,
}

pub struct InterfaceStructView {
    pub name: Seq<char>,
    pub elements: Seq<InterfaceElementView>,
}

impl View for InterfaceStruct {
    type V = InterfaceStructView;

    open spec fn view(&self) -> InterfaceStructView {
        InterfaceStructView {
            name: self.name@,
            elements: self.elements@.map_values(|e: InterfaceElement| e@),
        }
    }
}

/// The validated interface of one entry point: input rows (with the stage's
/// input array level stripped where the stage demands it), output rows
/// likewise, and both tables checked for overlapping locations, inputs
/// first.
pub open spec fn spec_entry_point_interface(ep: EntryPointView) -> Result<
    EntryPointInterfaceView,
    ErrorView,
> {
    match spec_interface_elements(ep.inputs, strips_input_array(ep.execution_model)) {
        Err(e) => Err(e),
        Ok(ins) => match spec_interface_elements(
            ep.outputs,
            strips_output_array(ep.execution_model),
        ) {
            Err(e) => Err(e),
            Ok(outs) => match spec_validate_elements(ins) {
                Err(e) => Err(e),
                Ok(()) => match spec_validate_elements(outs) {
                    Err(e) => Err(e),
                    Ok(()) => Ok(
                        EntryPointInterfaceView {
                            name: ep.name,
                            execution_model: ep.execution_model,
                            inputs: ins,
                            outputs: outs,
                        },
                    ),
                },
            },
        },
    }
}

/// No two rows of a derived interface claim a common slot: whenever the
/// derivation succeeds, every pair of input rows and every pair of output
/// rows keeps disjoint location ranges.
pub proof fn lemma_interface_rows_disjoint(ep: EntryPointView)
    ensures
        spec_entry_point_interface(ep) matches Ok(d) ==> {
            &&& forall|a: int, b: int|
                0 <= a < b < d.inputs.len() ==> !spec_overlap(
                    #[trigger] d.inputs[a],
                    #[trigger] d.inputs[b],
                )
            &&& forall|a: int, b: int|
                0 <= a < b < d.outputs.len() ==> !spec_overlap(
                    #[trigger] d.outputs[a],
                    #[trigger] d.outputs[b],
                )
        },
{
    if let Ok(d) = spec_entry_point_interface(ep) {
        lemma_validate_elements_no_overlap(d.inputs);
        lemma_validate_elements_no_overlap(d.outputs);
    }
}

/// Derives and validates one entry point's interface description.
pub fn entry_point_interface(ep: &EntryPoint) -> (r: Result<EntryPointInterface, Error>)
    ensures
        match r {
            Ok(d) => spec_entry_point_interface(ep@) == Ok::<_, ErrorView>(d@),
            Err(e) => spec_entry_point_interface(ep@) == Err::<EntryPointInterfaceView, _>(e@),
        },
{
    let strip_in = match ep.execution_model {
        ExecutionModel::TessellationControl => true,
        ExecutionModel::TessellationEvaluation => true,
        ExecutionModel::Geometry => true,
        _ => false,
    };
    let strip_out = match ep.execution_model {
        ExecutionModel::TessellationControl => true,
        _ => false,
    };
    let ins = match interface_elements(&ep.inputs, strip_in) {
        Err(e) => {
            return Err(e);
        },
        Ok(v) => v,
    };
    let outs = match interface_elements(&ep.outputs, strip_out) {
        Err(e) => {
            return Err(e);
        },
        Ok(v) => v,
    };
    match validate_elements(&ins) {
        Err(e) => {
            return Err(e);
        },
        Ok(()) => {},
    }
    match validate_elements(&outs) {
        Err(e) => {
            return Err(e);
        },
        Ok(()) => {},
    }
    Ok(
        EntryPointInterface {
            name: ep.name.clone(),
            execution_model: ep.execution_model,
            inputs: ins,
            outputs: outs,
        },
    )
}

/// The validated interface descriptions of every entry point, in order.
pub open spec fn spec_entry_point_interfaces(eps: Seq<EntryPointView>) -> Result<
    Seq<EntryPointInterfaceView>,
    ErrorView,
>
    decreases eps.len(),
{
    if eps.len() == 0 {
        Ok(Seq::empty())
    } else {
        match spec_entry_point_interface(eps[0]) {
            Err(e) => Err(e),
            Ok(d) => match spec_entry_point_interfaces(eps.drop_first()) {
                Ok(rest) => Ok(seq![d] + rest),
                Err(e) => Err(e),
            },
        }
    }
}

/// Derives the per-entry-point input/output interface lists, stripping the
/// stage-mandated outer array level and rejecting overlapping locations.
pub fn write_entry_points(entry_points: &Vec<EntryPoint>) -> (r: Result<
    Vec<EntryPointInterface>,
    Error,
>)
    ensures
        match r {
            Ok(v) => spec_entry_point_interfaces(entry_points@.map_values(|p: EntryPoint| p@))
                == Ok::<_, ErrorView>(v@.map_values(|d: EntryPointInterface| d@)),
            Err(e) => spec_entry_point_interfaces(entry_points@.map_values(|p: EntryPoint| p@))
                == Err::<Seq<EntryPointInterfaceView>, _>(e@),
        },
{
    let ghost all = entry_points@.map_values(|p: EntryPoint| p@);
    let mut acc: Vec<EntryPointInterface> = Vec::new();
    let mut i: usize = 0;
    proof {
        assert(all.skip(0) =~= all);
        assert(acc@.map_values(|d: EntryPointInterface| d@) =~= Seq::<
            EntryPointInterfaceView,
        >::empty());
    }
    while i < entry_points.len()
        invariant
            i <= all.len(),
            all == entry_points@.map_values(|p: EntryPoint| p@),
            match spec_entry_point_interfaces(all.skip(i as int)) {
                Ok(rest) => spec_entry_point_interfaces(all) == Ok::<_, ErrorView>(
                    acc@.map_values(|d: EntryPointInterface| d@) + rest,
                ),
                Err(e) => spec_entry_point_interfaces(all) == Err::<
                    Seq<EntryPointInterfaceView>,
                    _,
                >(e),
            },
        decreases all.len() - i,
    {
        let ghost pre = all.skip(i as int);
        let ghost acc_model = acc@.map_values(|d: EntryPointInterface| d@);
        proof {
            assert(pre.drop_first() =~= all.skip(i + 1));
            assert(pre[0] == entry_points@[i as int]@);
        }
        match entry_point_interface(&entry_points[i]) {
            Err(e) => {
                return Err(e);
            },
            Ok(d) => {
                let ghost dm = d@;
                acc.push(d);
                proof {
                    assert(acc@.map_values(|d: EntryPointInterface| d@) =~= acc_model.push(dm));
                    if let Ok(rest) = spec_entry_point_interfaces(all.skip(i + 1)) {
                        assert(acc_model + (seq![dm] + rest) =~= acc_model.push(dm) + rest);
                    }
                }
            },
        }
        i = i + 1;
    }
    proof {
        assert(all.skip(all.len() as int) =~= Seq::<EntryPointView>::empty());
        if let Ok(rest) = spec_entry_point_interfaces(all.skip(all.len() as int)) {
            assert(acc@.map_values(|d: EntryPointInterface| d@) + rest =~= acc@.map_values(
                |d: EntryPointInterface| d@,
            ));
        }
    }
    Ok(acc)
}

/// The two named attribute structs of one validated entry point interface.
pub open spec fn spec_interface_structs_of(d: EntryPointInterfaceView) -> Seq<
    InterfaceStructView,
> {
    seq![
        InterfaceStructView { name: spec_capitalize(d.name) + "Input"@, elements: d.inputs },
        InterfaceStructView { name: spec_capitalize(d.name) + "Output"@, elements: d.outputs },
    ]
}

/// The named attribute structs of every entry point, two per entry point.
pub open spec fn spec_interface_structs(eps: Seq<EntryPointView>) -> Result<
    Seq<InterfaceStructView>,
    ErrorView,
> {
    match spec_entry_point_interfaces(eps) {
        Err(e) => Err(e),
        Ok(ds) => Ok(ds.map_values(|d: EntryPointInterfaceView| spec_interface_structs_of(d))
            .flatten()),
    }
}

/// Derives, per entry point, the named input and output attribute structs
/// the emitter renders, each validated against overlapping locations.
pub fn write_interface_structs(entry_points: &Vec<EntryPoint>) -> (r: Result<
    Vec<InterfaceStruct>,
    Error,
>)
    ensures
        match r {
            Ok(v) => spec_interface_structs(entry_points@.map_values(|p: EntryPoint| p@))
                == Ok::<_, ErrorView>(v@.map_values(|s: InterfaceStruct| s@)),
            Err(e) => spec_interface_structs(entry_points@.map_values(|p: EntryPoint| p@))
                == Err::<Seq<InterfaceStructView>, _>(e@),
        },
{
    let descriptions = match write_entry_points(entry_points) {
        Err(e) => {
            return Err(e);
        },
        Ok(v) => v,
    };
    let ghost ds = descriptions@.map_values(|d: EntryPointInterface| d@);
    let mut acc: Vec<InterfaceStruct> = Vec::new();
    let mut i: usize = 0;
    proof {
        assert(ds.take(0).map_values(|d: EntryPointInterfaceView| spec_interface_structs_of(d))
            .flatten() =~= Seq::<InterfaceStructView>::empty());
        assert(acc@.map_values(|s: InterfaceStruct| s@) =~= Seq::<InterfaceStructView>::empty());
    }
    while i < descriptions.len()
        invariant
            i <= ds.len(),
            ds == descriptions@.map_values(|d: EntryPointInterface| d@),
            acc@.map_values(|s: InterfaceStruct| s@) == ds.take(i as int).map_values(
                |d: EntryPointInterfaceView| spec_interface_structs_of(d),
            ).flatten(),
        decreases ds.len() - i,
    {
        let ghost acc_model = acc@.map_values(|s: InterfaceStruct| s@);
        let d = &descriptions[i];
        let cap = capitalize(d.name.as_str());
        let in_name = cap.clone().concat("Input");
        let out_name = cap.concat("Output");
        let in_elems = crate::entry_point::copy_elements(&d.inputs);
        let out_elems = crate::entry_point::copy_elements(&d.outputs);
        let s_in = InterfaceStruct { name: in_name, elements: in_elems };
        let s_out = InterfaceStruct { name: out_name, elements: out_elems };
        let ghost sm_in = s_in@;
        let ghost sm_out = s_out@;
        acc.push(s_in);
        acc.push(s_out);
        proof {
            assert(ds[i as int] == descriptions@[i as int]@);
            assert(sm_in == spec_interface_structs_of(ds[i as int])[0]);
            assert(sm_out == spec_interface_structs_of(ds[i as int])[1]);
            assert(acc@.map_values(|s: InterfaceStruct| s@) =~= acc_model + seq![sm_in, sm_out]);
            let f = |d: EntryPointInterfaceView| spec_interface_structs_of(d);
            assert(ds.take(i + 1).map_values(f) =~= ds.take(i as int).map_values(f).push(
                spec_interface_structs_of(ds[i as int]),
            ));
            ds.take(i as int).map_values(f).lemma_flatten_push(
                spec_interface_structs_of(ds[i as int]),
            );
            assert(spec_interface_structs_of(ds[i as int]) =~= seq![sm_in, sm_out]);
            assert(acc@.map_values(|s: InterfaceStruct| s@) =~= ds.take(i + 1).map_values(
                f,
            ).flatten());
        }
        i = i + 1;
    }
    proof {
        assert(ds.take(ds.len() as int) =~= ds);
    }
    Ok(acc)
}

/// Copies an attribute table row by row.
pub fn copy_elements(elems: &Vec<InterfaceElement>) -> (r: Vec<InterfaceElement>)
    ensures
        r@.map_values(|e: InterfaceElement| e@) == elems@.map_values(|e: InterfaceElement| e@),
{
    let mut out: Vec<InterfaceElement> = Vec::new();
    let mut i: usize = 0;
    while i < elems.len()
        invariant
            i <= elems@.len(),
            out@.len() == i,
            forall|j: int| 0 <= j < i ==> out@[j]@ == elems@[j]@,
        decreases elems@.len() - i,
    {
        let e = &elems[i];
        out.push(
            InterfaceElement {
                location: e.location,
                name: e.name.clone(),
                format: e.format.clone(),
                occupied: e.occupied,
            },
        );
        i = i + 1;
    }
    proof {
        let om = out@.map_values(|e: InterfaceElement| e@);
        let em = elems@.map_values(|e: InterfaceElement| e@);
        assert forall|j: int| 0 <= j < om.len() implies om[j] == em[j] by {
            assert(out@[j]@ == elems@[j]@);
        }
        assert(om =~= em);
    }
    out
}

} // verus!
