//! From the compiler's output to a class that can be run.
use std::collections::HashMap;
use std::sync::Arc;
use cairo_vm::serde::deserialize_program as vm;
use cairo_vm::types::program::Program;
use cairo_vm::types::relocatable::MaybeRelocatable;
use cairo_vm::Felt252;
use vstd::arithmetic::power2::pow2;
use vstd::prelude::*;
use crate::assoc::{has_key, index_of_key, keys_unique, lemma_index_of_key, lemma_upsert, to_map, upsert};
use crate::execution::contract_class::{
    program_builtins_len, program_data, ContractClassV1, ContractClassV1Inner, EntryPointV1,
    EntryPointV1View, EntryPointsByType,
};
use crate::primitives::{EntryPointOffset, EntryPointSelector, Felt};

verus! {

/// Why a class could not be made from the compiler's output.
#[derive(Clone, Copy, Debug, PartialEq, Eq, Structural)]
pub enum ClassError {
    /// A hint could not be serialized.
    Parse,
    /// A hint stands at an offset beyond the bytecode.
    InvalidHintPc,
}

/// An error of the JSON serializer.
#[verifier::external_type_specification]
#[verifier::external_body]
pub struct ExJsonError(serde_json::Error);

/// An error of the interpreter's program constructor.
#[verifier::external_type_specification]
#[verifier::external_body]
pub struct ExVmProgramError(cairo_vm::types::errors::program_errors::ProgramError);

/// An entry point as the compiler gives it.
#[derive(Clone, Debug, PartialEq, Eq, Default)]
pub struct CasmContractEntryPoint {
    /// The selector of the function.
    pub selector: Felt,
    /// The offset of the function in the bytecode.
    pub offset: usize,
    /// The names of the builtins that the function needs.
    pub builtins: Vec<String>,
}

/// The entry points of a class as the compiler gives them.
#[derive(Clone, Debug, PartialEq, Eq, Default)]
pub struct CasmContractEntryPoints {
    pub external: Vec<CasmContractEntryPoint>,
    pub l1_handler: Vec<CasmContractEntryPoint>,
    pub constructor: Vec<CasmContractEntryPoint>,
}

/// A class as the compiler gives it.
#[derive(Debug, Default, PartialEq, Eq)]
pub struct CasmContractClass {
    pub bytecode: Vec<Felt>,
    /// For offsets in the bytecode, the hints that run there, in their order.
    pub hints: Vec<(usize, Vec<cairo_lang_casm::hints::Hint>)>,
    pub entry_points_by_type: CasmContractEntryPoints,
}

/// A hint in the shape in which the interpreter takes it. The interpreter
/// tracks the allocation pointer of each hint from its start.
#[derive(Clone, Debug, PartialEq, Eq, Default)]
pub struct HintParams {
    pub code: String,
    /// The scopes that the hint may name.
    pub accessible_scopes: Vec<String>,
    /// The references that the hint may name, each with its number.
    pub reference_ids: Vec<(String, usize)>,
}

/// A hint in the shape in which the interpreter takes it, as a mathematical
/// value.
pub struct HintParamsView {
    pub code: Seq<char>,
    pub accessible_scopes: Seq<Seq<char>>,
    pub reference_ids: Seq<(Seq<char>, usize)>,
}

impl View for HintParams {
    type V = HintParamsView;

    open spec fn view(&self) -> HintParamsView {
        HintParamsView {
            code: self.code@,
            accessible_scopes: self.accessible_scopes@.map_values(|s: String| s@),
            reference_ids: self.reference_ids@.map_values(|e: (String, usize)| (e.0@, e.1)),
        }
    }
}

/// The hint with the given code that tracks nothing: it names no scope and no
/// reference, as these are resolved when it runs.
pub open spec fn untracked(code: Seq<char>) -> HintParamsView {
    HintParamsView { code, accessible_scopes: Seq::empty(), reference_ids: Seq::empty() }
}

/// The JSON text that stands for a hint, if the serializer has one for it.
pub uninterp spec fn hint_json(hint: cairo_lang_casm::hints::Hint) -> Option<Seq<char>>;

/// Calls `serde_json::to_string` on a hint. Whether it succeeds, and the text
/// that it gives, depend on the hint alone: it succeeds where the hint has a
/// JSON form, and gives that form.
#[verifier::external_body]
fn serialize_hint(hint: &cairo_lang_casm::hints::Hint) -> (r: Result<String, serde_json::Error>)
    ensures
        r is Ok <==> hint_json(*hint) is Some,
        r matches Ok(code) ==> hint_json(*hint) == Some(code@),
{
    serde_json::to_string(hint)
}

/// Calls `Hint::clone`, which gives an equal hint.
#[verifier::external_body]
fn clone_hint(hint: &cairo_lang_casm::hints::Hint) -> (r: cairo_lang_casm::hints::Hint)
    ensures
        r == *hint,
{
    hint.clone()
}

/// The hint with the given code in the interpreter's shape: it names no scope
/// and no reference.
pub fn hint_params_from_code(code: String) -> (r: HintParams)
    ensures
        r@ == untracked(code@),
{
    let r = HintParams { code, accessible_scopes: Vec::new(), reference_ids: Vec::new() };
    assert(r@.accessible_scopes =~= Seq::empty());
    assert(r@.reference_ids =~= Seq::empty());
    r
}

/// The hint in the interpreter's shape: its code is its JSON form, and it
/// names no scope and no reference. Fails where the hint has no JSON form,
/// and only there.
pub fn hint_to_hint_params(hint: &cairo_lang_casm::hints::Hint) -> (r: Result<
    HintParams,
    ClassError,
>)
    ensures
        match r {
            Ok(params) => hint_json(*hint) matches Some(code) && params@ == untracked(code),
            Err(e) => e == ClassError::Parse && hint_json(*hint) is None,
        },
{
    match serialize_hint(hint) {
        Ok(code) => Ok(hint_params_from_code(code)),
        Err(_) => Err(ClassError::Parse),
    }
}

/// The entry point that the compiler's entry point becomes: each builtin's
/// name gets the interpreter's suffix.
pub open spec fn converted(ep: CasmContractEntryPoint) -> EntryPointV1View {
    EntryPointV1View {
        selector: EntryPointSelector(ep.selector),
        offset: EntryPointOffset(ep.offset),
        builtins: ep.builtins@.map_values(|name: String| name@ + "_builtin"@),
    }
}

/// The entry points of one kind, each turned into the form in which a class
/// holds it, in the same order.
pub fn convert_entry_points_v1(external: Vec<CasmContractEntryPoint>) -> (r: Result<
    Vec<EntryPointV1>,
    ClassError,
>)
    ensures
        r is Ok,
        r->Ok_0@.map_values(|ep: EntryPointV1| ep@) == external@.map_values(
            |ep: CasmContractEntryPoint| converted(ep),
        ),
{
    let mut out: Vec<EntryPointV1> = Vec::new();
    let mut i: usize = 0;
    while i < external.len()
        invariant
            i <= external@.len(),
            out@.len() == i,
            forall|k: int| 0 <= k < i ==> (#[trigger] out@[k])@ == converted(external@[k]),
        decreases external@.len() - i,
    {
        let ep = &external[i];
        let mut builtins: Vec<String> = Vec::new();
        let mut j: usize = 0;
        while j < ep.builtins.len()
            invariant
                j <= ep.builtins@.len(),
                builtins@.len() == j,
                forall|k: int|
                    0 <= k < j ==> (#[trigger] builtins@[k])@ == ep.builtins@[k]@ + "_builtin"@,
            decreases ep.builtins@.len() - j,
        {
            builtins.push(ep.builtins[j].clone().concat("_builtin"));
            j += 1;
        }
        let converted_ep = EntryPointV1 {
            selector: EntryPointSelector(ep.selector),
            offset: EntryPointOffset(ep.offset),
            builtins,
        };
        assert(converted_ep@.builtins =~= converted(*ep).builtins);
        out.push(converted_ep);
        i += 1;
    }
    assert(out@.map_values(|ep: EntryPointV1| ep@) =~= external@.map_values(
        |ep: CasmContractEntryPoint| converted(ep),
    ));
    Ok(out)
}

/// The prime of the field: two to the power 251, and seventeen times two to
/// the power 192, and one.
pub open spec fn field_prime() -> nat {
    pow2(251) + 17 * pow2(192) + 1
}

/// The numbers that field elements stand for in the field.
pub open spec fn field_values(data: Seq<Felt>) -> Seq<nat> {
    data.map_values(|f: Felt| f.value() % field_prime())
}

/// The hints at each offset, each hint as a mathematical value.
pub open spec fn hint_views(hints: Seq<(usize, Vec<HintParams>)>) -> Seq<
    (usize, Seq<HintParamsView>),
> {
    hints.map_values(|e: (usize, Vec<HintParams>)| (e.0, e.1@.map_values(|h: HintParams| h@)))
}

/// Whether no hint names a reference.
pub open spec fn no_references(hints: Seq<(usize, Seq<HintParamsView>)>) -> bool {
    forall|i: int, j: int|
        0 <= i < hints.len() && 0 <= j < hints[i].1.len() ==> (
        #[trigger] hints[i].1[j]).reference_ids.len() == 0
}

/// Whether each offset that has hints lies in a bytecode of the given length.
pub open spec fn hints_in_bounds(hints: Seq<(usize, Seq<HintParamsView>)>, length: nat) -> bool {
    forall|i: int| 0 <= i < hints.len() ==> (#[trigger] hints[i]).0 < length
}

/// The offsets that have at least one hint, each with its hints.
pub open spec fn nonempty_hints(hints: Seq<(usize, Seq<HintParamsView>)>) -> Map<
    usize,
    Seq<HintParamsView>,
> {
    Map::new(
        |pc: usize| has_key(hints, pc) && to_map(hints)[pc].len() > 0,
        |pc: usize| to_map(hints)[pc],
    )
}

/// The hints that a program holds: for each offset at which hints run, those
/// hints in their order.
pub uninterp spec fn program_hints(program: Program) -> Map<usize, Seq<HintParamsView>>;

/// Calls `Program::new` with the given bytecode and hints, none of which
/// names a reference, each hint with the tracking that `ApTracking::new`
/// gives, and with no builtins, no main
/// function, no references, no identifiers, no error messages and no
/// instruction locations. It fails where a hint's offset is not below the
/// length of the bytecode, and only there. The program holds the bytecode,
/// each element reduced into the field, and the hints of each offset that has
/// any.
#[verifier::external_body]
fn new_program(data: &Vec<Felt>, hints: &Vec<(usize, Vec<HintParams>)>) -> (r: Result<
    Program,
    cairo_vm::types::errors::program_errors::ProgramError,
>)
    requires
        keys_unique(hint_views(hints@)),
        no_references(hint_views(hints@)),
    ensures
        r is Ok <==> hints_in_bounds(hint_views(hints@), data@.len()),
        r matches Ok(program) ==> {
            &&& program_data(program) == field_values(data@)
            &&& program_builtins_len(program) == 0
            &&& program_hints(program) == nonempty_hints(hint_views(hints@))
        },
{
    let data = data.iter().map(|f| MaybeRelocatable::from(Felt252::from_bytes_be_slice(
        &[f.hi.to_be_bytes(), f.lo.to_be_bytes()].concat()))).collect();
    let hints = hints.iter().map(|(pc, list)| (*pc, list.iter().map(|h| vm::HintParams {
        code: h.code.clone(),
        accessible_scopes: h.accessible_scopes.clone(),
        flow_tracking_data: vm::FlowTrackingData {
            ap_tracking: vm::ApTracking::new(),
            reference_ids: h.reference_ids.iter().cloned().collect(),
        },
    }).collect())).collect();
    Program::new(Vec::new(), data, None, hints, Default::default(), HashMap::new(), Vec::new(), None)
}

/// The hints of a class by their codes, each code by its characters.
pub open spec fn code_views(hints: Seq<(String, cairo_lang_casm::hints::Hint)>) -> Seq<
    (Seq<char>, cairo_lang_casm::hints::Hint),
> {
    hints.map_values(|e: (String, cairo_lang_casm::hints::Hint)| (e.0@, e.1))
}

/// The hints of a class by their offsets, each hint with its code, as
/// mathematical values.
pub open spec fn coded_views(
    serialized: Seq<(usize, Vec<(String, cairo_lang_casm::hints::Hint)>)>,
) -> Seq<(usize, Seq<(Seq<char>, cairo_lang_casm::hints::Hint)>)> {
    serialized.map_values(
        |e: (usize, Vec<(String, cairo_lang_casm::hints::Hint)>)| (e.0, code_views(e.1@)),
    )
}

/// The hints of an entry in the interpreter's shape.
pub open spec fn untracked_all(list: Seq<(Seq<char>, cairo_lang_casm::hints::Hint)>) -> Seq<
    HintParamsView,
> {
    list.map_values(|e: (Seq<char>, cairo_lang_casm::hints::Hint)| untracked(e.0))
}

/// The hints of each offset in the interpreter's shape: the entries are taken
/// in their order, and a later entry for an offset replaces an earlier one.
pub open spec fn hints_by_pc(
    coded: Seq<(usize, Seq<(Seq<char>, cairo_lang_casm::hints::Hint)>)>,
) -> Seq<(usize, Seq<HintParamsView>)>
    decreases coded.len(),
{
    if coded.len() == 0 {
        Seq::empty()
    } else {
        upsert(hints_by_pc(coded.drop_last()), coded.last().0, untracked_all(coded.last().1))
    }
}

/// The hints of all entries with their codes, entry after entry.
pub open spec fn coded_hints(
    coded: Seq<(usize, Seq<(Seq<char>, cairo_lang_casm::hints::Hint)>)>,
) -> Seq<(Seq<char>, cairo_lang_casm::hints::Hint)>
    decreases coded.len(),
{
    if coded.len() == 0 {
        Seq::empty()
    } else {
        coded_hints(coded.drop_last()) + coded.last().1
    }
}

/// The given hints under their codes: they are taken in their order, and a
/// later hint with a code replaces an earlier one.
pub open spec fn hints_by_code(pairs: Seq<(Seq<char>, cairo_lang_casm::hints::Hint)>) -> Seq<
    (Seq<char>, cairo_lang_casm::hints::Hint),
>
    decreases pairs.len(),
{
    if pairs.len() == 0 {
        Seq::empty()
    } else {
        upsert(hints_by_code(pairs.drop_last()), pairs.last().0, pairs.last().1)
    }
}

/// Whether the offset of each entry lies in a bytecode of the given length.
pub open spec fn pcs_in_bounds(
    coded: Seq<(usize, Seq<(Seq<char>, cairo_lang_casm::hints::Hint)>)>,
    length: nat,
) -> bool {
    forall|i: int| 0 <= i < coded.len() ==> (#[trigger] coded[i]).0 < length
}

/// The offsets that have hints are the offsets of the entries, each once.
pub proof fn lemma_hints_by_pc_keys(
    coded: Seq<(usize, Seq<(Seq<char>, cairo_lang_casm::hints::Hint)>)>,
)
    ensures
        keys_unique(hints_by_pc(coded)),
        forall|pc: usize|
            has_key(hints_by_pc(coded), pc) <==> exists|i: int|
                0 <= i < coded.len() && (#[trigger] coded[i]).0 == pc,
    decreases coded.len(),
{
    if coded.len() > 0 {
        let front = coded.drop_last();
        lemma_hints_by_pc_keys(front);
        lemma_upsert(hints_by_pc(front), coded.last().0, untracked_all(coded.last().1));
        let now = hints_by_pc(coded);
        assert forall|pc: usize| has_key(now, pc) <==> exists|i: int|
            0 <= i < coded.len() && (#[trigger] coded[i]).0 == pc by {
            assert(has_key(now, pc) <==> to_map(now).dom().contains(pc));
            assert(has_key(hints_by_pc(front), pc) <==> to_map(hints_by_pc(front)).dom().contains(
                pc,
            ));
            if has_key(hints_by_pc(front), pc) {
                let i = choose|i: int| 0 <= i < front.len() && (#[trigger] front[i]).0 == pc;
                assert(coded[i].0 == pc);
            }
            if pc == coded.last().0 {
                assert(coded[coded.len() - 1].0 == pc);
            }
            if exists|i: int| 0 <= i < coded.len() && (#[trigger] coded[i]).0 == pc {
                let i = choose|i: int| 0 <= i < coded.len() && (#[trigger] coded[i]).0 == pc;
                if i < front.len() {
                    assert(front[i].0 == pc);
                }
            }
        }
    }
}

/// The offsets that have hints lie in the bytecode where those of the entries
/// do, and only there.
pub proof fn lemma_hints_by_pc_bounds(
    coded: Seq<(usize, Seq<(Seq<char>, cairo_lang_casm::hints::Hint)>)>,
    length: nat,
)
    ensures
        hints_in_bounds(hints_by_pc(coded), length) <==> pcs_in_bounds(coded, length),
{
    lemma_hints_by_pc_keys(coded);
    let by_pc = hints_by_pc(coded);
    if hints_in_bounds(by_pc, length) {
        assert forall|i: int| 0 <= i < coded.len() implies (#[trigger] coded[i]).0 < length by {
            assert(has_key(by_pc, coded[i].0));
            let k = index_of_key(by_pc, coded[i].0);
            assert(by_pc[k].0 < length);
        }
    }
    if pcs_in_bounds(coded, length) {
        assert forall|k: int| 0 <= k < by_pc.len() implies (#[trigger] by_pc[k]).0 < length by {
            assert(has_key(by_pc, by_pc[k].0));
            let i = choose|i: int| 0 <= i < coded.len() && (#[trigger] coded[i]).0 == by_pc[k].0;
            assert(coded[i].0 < length);
        }
    }
}

/// Puts the hints `list` under the offset `pc`: in the offset's place where it
/// has hints already, at the end where it has none.
fn set_hints_at(hints: &mut Vec<(usize, Vec<HintParams>)>, pc: usize, list: Vec<HintParams>)
    requires
        keys_unique(hint_views(old(hints)@)),
    ensures
        keys_unique(hint_views(final(hints)@)),
        hint_views(final(hints)@) == upsert(
            hint_views(old(hints)@),
            pc,
            list@.map_values(|h: HintParams| h@),
        ),
{
    let ghost before = hint_views(hints@);
    let ghost value = list@.map_values(|h: HintParams| h@);
    proof {
        lemma_upsert(before, pc, value);
    }
    let mut i: usize = 0;
    while i < hints.len()
        invariant
            i <= hints@.len(),
            hints@ == old(hints)@,
            before == hint_views(hints@),
            value == list@.map_values(|h: HintParams| h@),
            keys_unique(before),
            keys_unique(upsert(before, pc, value)),
            forall|k: int| 0 <= k < i ==> (#[trigger] before[k]).0 != pc,
        decreases hints@.len() - i,
    {
        if hints[i].0 == pc {
            proof {
                assert(before[i as int].0 == pc);
                lemma_index_of_key(before, i as int);
            }
            hints.set(i, (pc, list));
            assert(hint_views(hints@) =~= upsert(before, pc, value));
            return ;
        }
        i += 1;
    }
    assert(!has_key(before, pc));
    hints.push((pc, list));
    assert(hint_views(hints@) =~= upsert(before, pc, value));
}

/// Puts `hint` under `code`: in the code's place where it is there already, at
/// the end where it is not.
fn set_hint_for_code(
    hints: &mut Vec<(String, cairo_lang_casm::hints::Hint)>,
    code: String,
    hint: cairo_lang_casm::hints::Hint,
)
    requires
        keys_unique(code_views(old(hints)@)),
    ensures
        keys_unique(code_views(final(hints)@)),
        code_views(final(hints)@) == upsert(code_views(old(hints)@), code@, hint),
{
    let ghost before = code_views(hints@);
    proof {
        lemma_upsert(before, code@, hint);
    }
    let mut i: usize = 0;
    while i < hints.len()
        invariant
            i <= hints@.len(),
            hints@ == old(hints)@,
            before == code_views(hints@),
            keys_unique(before),
            keys_unique(upsert(before, code@, hint)),
            forall|k: int| 0 <= k < i ==> (#[trigger] before[k]).0 != code@,
        decreases hints@.len() - i,
    {
        if hints[i].0 == code {
            proof {
                assert(before[i as int].0 == code@);
                lemma_index_of_key(before, i as int);
            }
            let ghost key = code@;
            hints.set(i, (code, hint));
            assert(code_views(hints@) =~= upsert(before, key, hint));
            return ;
        }
        i += 1;
    }
    assert(!has_key(before, code@));
    let ghost key = code@;
    hints.push((code, hint));
    assert(code_views(hints@) =~= upsert(before, key, hint));
}

/// The JSON form of a hint that has one.
pub open spec fn json_of(hint: cairo_lang_casm::hints::Hint) -> Seq<char> {
    hint_json(hint)->Some_0
}

/// Whether each hint of each entry has a JSON form.
pub open spec fn all_have_json(hints: Seq<(usize, Vec<cairo_lang_casm::hints::Hint>)>) -> bool {
    forall|i: int, j: int|
        0 <= i < hints.len() && 0 <= j < hints[i].1@.len() ==> hint_json(
            #[trigger] hints[i].1@[j],
        ) is Some
}

/// The hints of a class by their offsets, each hint with its JSON form.
pub open spec fn with_json(hints: Seq<(usize, Vec<cairo_lang_casm::hints::Hint>)>) -> Seq<
    (usize, Seq<(Seq<char>, cairo_lang_casm::hints::Hint)>),
> {
    hints.map_values(
        |e: (usize, Vec<cairo_lang_casm::hints::Hint>)|
            (e.0, e.1@.map_values(|h: cairo_lang_casm::hints::Hint| (json_of(h), h))),
    )
}

/// Serializes each hint: gives the hints by their offsets as they came, each
/// with its JSON form. Fails where a hint has no JSON form, and only there.
pub fn serialize_hints(hints: &Vec<(usize, Vec<cairo_lang_casm::hints::Hint>)>) -> (r: Result<
    Vec<(usize, Vec<(String, cairo_lang_casm::hints::Hint)>)>,
    ClassError,
>)
    ensures
        match r {
            Ok(serialized) => all_have_json(hints@) && coded_views(serialized@) == with_json(
                hints@,
            ),
            Err(e) => e == ClassError::Parse && !all_have_json(hints@),
        },
{
    let mut out: Vec<(usize, Vec<(String, cairo_lang_casm::hints::Hint)>)> = Vec::new();
    let mut i: usize = 0;
    while i < hints.len()
        invariant
            i <= hints@.len(),
            out@.len() == i,
            all_have_json(hints@.take(i as int)),
            coded_views(out@) == with_json(hints@.take(i as int)),
        decreases hints@.len() - i,
    {
        let list = &hints[i].1;
        let mut coded: Vec<(String, cairo_lang_casm::hints::Hint)> = Vec::new();
        let mut j: usize = 0;
        while j < list.len()
            invariant
                j <= list@.len(),
                coded@.len() == j,
                i < hints@.len(),
                list == &hints@[i as int].1,
                forall|b: int| 0 <= b < j ==> hint_json(#[trigger] list@[b]) is Some,
                code_views(coded@) == list@.take(j as int).map_values(
                    |h: cairo_lang_casm::hints::Hint| (json_of(h), h),
                ),
            decreases list@.len() - j,
        {
            let code = match serialize_hint(&list[j]) {
                Ok(code) => code,
                Err(_) => {
                    assert(hint_json(hints@[i as int].1@[j as int]) is None);
                    return Err(ClassError::Parse);
                },
            };
            let ghost before = coded@;
            coded.push((code, clone_hint(&list[j])));
            proof {
                let want = list@.take(j + 1).map_values(
                    |h: cairo_lang_casm::hints::Hint| (json_of(h), h),
                );
                assert forall|k: int| 0 <= k < want.len() implies code_views(coded@)[k]
                    == want[k] by {
                    if k < j {
                        assert(coded@[k] == before[k]);
                        assert(code_views(before)[k] == want[k]);
                    }
                }
                assert(code_views(coded@) =~= want);
            }
            j += 1;
        }
        assert(list@.take(j as int) =~= list@);
        let ghost before = out@;
        out.push((hints[i].0, coded));
        proof {
            assert forall|a: int, b: int|
                0 <= a < i + 1 && 0 <= b < hints@.take(i + 1)[a].1@.len() implies hint_json(
                #[trigger] hints@.take(i + 1)[a].1@[b],
            ) is Some by {
                if a < i {
                    assert(hints@.take(i as int)[a] == hints@.take(i + 1)[a]);
                    assert(hint_json(hints@.take(i as int)[a].1@[b]) is Some);
                }
            }
            let want = with_json(hints@.take(i + 1));
            assert forall|k: int| 0 <= k < want.len() implies coded_views(out@)[k] == want[k] by {
                if k < i {
                    assert(out@[k] == before[k]);
                    assert(coded_views(before)[k] == with_json(hints@.take(i as int))[k]);
                }
            }
            assert(coded_views(out@) =~= want);
        }
        i += 1;
    }
    assert(hints@.take(i as int) =~= hints@);
    Ok(out)
}

/// The entry points of one kind as a class holds them, as mathematical
/// values.
pub open spec fn entry_views(eps: Seq<EntryPointV1>) -> Seq<EntryPointV1View> {
    eps.map_values(|ep: EntryPointV1| ep@)
}

/// The entry points of one kind of the compiler, each turned into the form in
/// which a class holds it.
pub open spec fn converted_all(eps: Seq<CasmContractEntryPoint>) -> Seq<EntryPointV1View> {
    eps.map_values(|ep: CasmContractEntryPoint| converted(ep))
}

/// Whether `class` is the class that the given bytecode, hints with their
/// codes and entry points make.
pub open spec fn is_class_of(
    class: ContractClassV1,
    bytecode: Seq<Felt>,
    coded: Seq<(usize, Seq<(Seq<char>, cairo_lang_casm::hints::Hint)>)>,
    entry_points: CasmContractEntryPoints,
) -> bool {
    &&& program_data(class.0.program) == field_values(bytecode)
    &&& program_builtins_len(class.0.program) == 0
    &&& program_hints(class.0.program) == nonempty_hints(hints_by_pc(coded))
    &&& entry_views(class.0.entry_points_by_type.constructor@) == converted_all(
        entry_points.constructor@,
    )
    &&& entry_views(class.0.entry_points_by_type.external@) == converted_all(
        entry_points.external@,
    )
    &&& entry_views(class.0.entry_points_by_type.l1_handler@) == converted_all(
        entry_points.l1_handler@,
    )
    &&& keys_unique(code_views(class.0.hints@))
    &&& code_views(class.0.hints@) == hints_by_code(coded_hints(coded))
}

/// The class that the compiler's output makes, given each hint with its
/// serialized form. The program holds the bytecode and, by their offsets, the
/// hints in the interpreter's shape; the class holds each hint under its
/// serialized form. Fails where a hint stands at an offset beyond the
/// bytecode, and only there.
pub fn assemble(
    bytecode: Vec<Felt>,
    serialized: Vec<(usize, Vec<(String, cairo_lang_casm::hints::Hint)>)>,
    entry_points: CasmContractEntryPoints,
) -> (r: Result<ContractClassV1, ClassError>)
    ensures
        match r {
            Ok(class) => pcs_in_bounds(coded_views(serialized@), bytecode@.len()) && is_class_of(
                class,
                bytecode@,
                coded_views(serialized@),
                entry_points,
            ),
            Err(e) => e == ClassError::InvalidHintPc && !pcs_in_bounds(
                coded_views(serialized@),
                bytecode@.len(),
            ),
        },
{
    let ghost coded = coded_views(serialized@);
    let mut hints: Vec<(usize, Vec<HintParams>)> = Vec::new();
    let mut string_to_hint: Vec<(String, cairo_lang_casm::hints::Hint)> = Vec::new();
    let mut i: usize = 0;
    assert(coded.take(0) =~= Seq::empty());
    assert(hint_views(hints@) =~= hints_by_pc(coded.take(0)));
    assert(code_views(string_to_hint@) =~= hints_by_code(coded_hints(coded.take(0))));
    while i < serialized.len()
        invariant
            i <= serialized@.len(),
            coded == coded_views(serialized@),
            keys_unique(hint_views(hints@)),
            no_references(hint_views(hints@)),
            hint_views(hints@) == hints_by_pc(coded.take(i as int)),
            keys_unique(code_views(string_to_hint@)),
            code_views(string_to_hint@) == hints_by_code(coded_hints(coded.take(i as int))),
        decreases serialized@.len() - i,
    {
        let pc = serialized[i].0;
        let list = &serialized[i].1;
        let ghost done = coded_hints(coded.take(i as int));
        let mut hint_params: Vec<HintParams> = Vec::new();
        let mut j: usize = 0;
        assert(code_views(list@) == coded[i as int].1);
        assert(hint_params@.map_values(|h: HintParams| h@) =~= untracked_all(
            code_views(list@).take(0),
        ));
        assert(done + code_views(list@).take(0) =~= done);
        while j < list.len()
            invariant
                j <= list@.len(),
                hint_params@.len() == j,
                hint_params@.map_values(|h: HintParams| h@) == untracked_all(
                    code_views(list@).take(j as int),
                ),
                keys_unique(code_views(string_to_hint@)),
                code_views(string_to_hint@) == hints_by_code(
                    done + code_views(list@).take(j as int),
                ),
            decreases list@.len() - j,
        {
            let ghost pairs = code_views(list@);
            let ghost params_before = hint_params@;
            hint_params.push(hint_params_from_code(list[j].0.clone()));
            set_hint_for_code(&mut string_to_hint, list[j].0.clone(), clone_hint(&list[j].1));
            proof {
                let longer = done + pairs.take(j + 1);
                assert(longer.drop_last() =~= done + pairs.take(j as int));
                assert(longer.last() == pairs[j as int]);
                let want = untracked_all(pairs.take(j + 1));
                assert forall|k: int| 0 <= k < want.len() implies hint_params@.map_values(
                    |h: HintParams| h@,
                )[k] == want[k] by {
                    if k < j {
                        assert(hint_params@[k] == params_before[k]);
                        assert(params_before.map_values(|h: HintParams| h@)[k] == untracked_all(
                            pairs.take(j as int),
                        )[k]);
                    }
                }
                assert(hint_params@.map_values(|h: HintParams| h@) =~= want);
            }
            j += 1;
        }
        proof {
            assert(code_views(list@).take(j as int) =~= code_views(list@));
            let upto = coded.take(i + 1);
            assert(upto.drop_last() =~= coded.take(i as int));
            assert(upto.last() == coded[i as int]);
        }
        let ghost before = hint_views(hints@);
        let ghost list_view = hint_params@.map_values(|h: HintParams| h@);
        set_hints_at(&mut hints, pc, hint_params);
        proof {
            let after = hint_views(hints@);
            assert forall|a: int, b: int|
                0 <= a < after.len() && 0 <= b < after[a].1.len() implies (
            #[trigger] after[a].1[b]).reference_ids.len() == 0 by {
                if after[a].1 == list_view {
                } else {
                    assert(after[a] == before[a]);
                }
            }
        }
        i += 1;
    }
    proof {
        assert(coded.take(i as int) =~= coded);
        lemma_hints_by_pc_bounds(coded, bytecode@.len() as nat);
    }
    let program = match new_program(&bytecode, &hints) {
        Ok(program) => program,
        Err(_) => {
            return Err(ClassError::InvalidHintPc);
        },
    };
    let constructor = match convert_entry_points_v1(entry_points.constructor) {
        Ok(eps) => eps,
        Err(e) => {
            return Err(e);
        },
    };
    let external = match convert_entry_points_v1(entry_points.external) {
        Ok(eps) => eps,
        Err(e) => {
            return Err(e);
        },
    };
    let l1_handler = match convert_entry_points_v1(entry_points.l1_handler) {
        Ok(eps) => eps,
        Err(e) => {
            return Err(e);
        },
    };
    Ok(
        ContractClassV1(
            Arc::new(
                ContractClassV1Inner {
                    program,
                    entry_points_by_type: EntryPointsByType { constructor, external, l1_handler },
                    hints: string_to_hint,
                },
            ),
        ),
    )
}

impl ContractClassV1 {
    /// The class that the compiler's output makes: see `assemble`, with each
    /// hint's JSON form as its serialized form. Fails with `Parse` where a
    /// hint has no JSON form, and else with `InvalidHintPc` where a hint
    /// stands at an offset beyond the bytecode; succeeds on every other class.
    pub fn try_from(class: CasmContractClass) -> (r: Result<ContractClassV1, ClassError>)
        ensures
            match r {
                Ok(made) => {
                    &&& all_have_json(class.hints@)
                    &&& pcs_in_bounds(with_json(class.hints@), class.bytecode@.len())
                    &&& is_class_of(
                        made,
                        class.bytecode@,
                        with_json(class.hints@),
                        class.entry_points_by_type,
                    )
                },
                Err(e) => if all_have_json(class.hints@) {
                    e == ClassError::InvalidHintPc && !pcs_in_bounds(
                        with_json(class.hints@),
                        class.bytecode@.len(),
                    )
                } else {
                    e == ClassError::Parse
                },
            },
    {
        let serialized = match serialize_hints(&class.hints) {
            Ok(serialized) => serialized,
            Err(e) => {
                return Err(e);
            },
        };
        assemble(class.bytecode, serialized, class.entry_points_by_type)
    }
}

} // verus!
