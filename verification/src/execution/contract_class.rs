//! Compiled contract classes: their entry points, how a call finds the one it
//! means, and what hashing a class costs.
use std::sync::Arc;
use vstd::prelude::*;
use vstd::string::StringSliceAdditionalSpecFns;
use crate::abi::abi_utils::{selector_from_name, selector_of};
use crate::abi::constants;
use crate::execution::entry_point::{CallEntryPoint, ExecutionResources};
use crate::execution::errors::PreExecutionError;
use crate::primitives::{
    lemma_value_injective, EntryPointOffset, EntryPointSelector, EntryPointType, EntryPoint,
};

verus! {

/// A program as the interpreter holds it.
#[verifier::external_type_specification]
#[verifier::external_body]
pub struct ExProgram(cairo_vm::types::program::Program);

/// The numbers that make a program's bytecode, in their order.
pub uninterp spec fn program_data(program: cairo_vm::types::program::Program) -> Seq<nat>;

/// The number of field elements of a program's bytecode.
pub open spec fn program_data_len(program: cairo_vm::types::program::Program) -> nat {
    program_data(program).len()
}

/// The number of builtins that a program declares.
pub uninterp spec fn program_builtins_len(program: cairo_vm::types::program::Program) -> nat;

/// Calls `Program::data_len`, which returns the length of the program's data.
#[verifier::external_body]
fn data_len(program: &cairo_vm::types::program::Program) -> (r: usize)
    ensures
        r == program_data(*program).len(),
{
    program.data_len()
}

/// Calls `Program::builtins_len`, which returns the length of the program's
/// list of builtins.
#[verifier::external_body]
fn builtins_len(program: &cairo_vm::types::program::Program) -> (r: usize)
    ensures
        r == program_builtins_len(*program),
{
    program.builtins_len()
}

/// Calls `BuiltinName::to_str_with_suffix` on the Pedersen hash builtin, whose
/// name the interpreter fixes as stated.
#[verifier::external_body]
fn hash_builtin_name() -> (r: String)
    ensures
        r@ == "pedersen_builtin"@,
{
    cairo_vm::types::builtin_name::BuiltinName::pedersen.to_str_with_suffix().to_string()
}

/// Calls `BuiltinName::to_str_with_suffix` on the Poseidon hash builtin, whose
/// name the interpreter fixes as stated.
#[verifier::external_body]
fn poseidon_builtin_name() -> (r: String)
    ensures
        r@ == "poseidon_builtin"@,
{
    cairo_vm::types::builtin_name::BuiltinName::poseidon.to_str_with_suffix().to_string()
}

/// The entry points of a class, by their kind. Each kind has its list, which
/// may be empty; within a list the order is that of the class.
#[derive(Clone, Debug, PartialEq, Eq, Default)]
pub struct EntryPointsByType<T> {
    pub constructor: Vec<T>,
    pub external: Vec<T>,
    pub l1_handler: Vec<T>,
}

impl<T> EntryPointsByType<T> {
    /// The entry points of the given kind.
    pub open spec fn bucket(&self, typ: EntryPointType) -> Seq<T> {
        match typ {
            EntryPointType::Constructor => self.constructor@,
            EntryPointType::External => self.external@,
            EntryPointType::L1Handler => self.l1_handler@,
        }
    }

    /// The number of entry points of all kinds.
    pub open spec fn total(&self) -> nat {
        self.constructor@.len() + self.external@.len() + self.l1_handler@.len()
    }

    /// The entry points of the given kind.
    pub fn get(&self, typ: EntryPointType) -> (r: &Vec<T>)
        ensures
            r@ == self.bucket(typ),
    {
        match typ {
            EntryPointType::Constructor => &self.constructor,
            EntryPointType::External => &self.external,
            EntryPointType::L1Handler => &self.l1_handler,
        }
    }
}

/// What has a selector.
pub trait Selected {
    /// The selector.
    spec fn selector_spec(&self) -> EntryPointSelector;

    /// The selector.
    fn selector(&self) -> (r: EntryPointSelector)
        ensures
            r == self.selector_spec(),
    ;
}

impl Selected for EntryPoint {
    open spec fn selector_spec(&self) -> EntryPointSelector {
        self.selector
    }

    fn selector(&self) -> (r: EntryPointSelector) {
        self.selector
    }
}

/// An entry point of a class compiled to bytecode.
#[derive(Clone, Debug, PartialEq, Eq, Hash, Default)]
pub struct EntryPointV1 {
    pub selector: EntryPointSelector,
    pub offset: EntryPointOffset,
    /// The names of the builtins that the entry point needs.
    pub builtins: Vec<String>,
}

/// An entry point of a class compiled to bytecode, as a mathematical value.
pub struct EntryPointV1View {
    pub selector: EntryPointSelector,
    pub offset: EntryPointOffset,
    pub builtins: Seq<Seq<char>>,
}

impl View for EntryPointV1 {
    type V = EntryPointV1View;

    open spec fn view(&self) -> EntryPointV1View {
        EntryPointV1View {
            selector: self.selector,
            offset: self.offset,
            builtins: self.builtins@.map_values(|s: String| s@),
        }
    }
}

impl Selected for EntryPointV1 {
    open spec fn selector_spec(&self) -> EntryPointSelector {
        self.selector
    }

    fn selector(&self) -> (r: EntryPointSelector) {
        self.selector
    }
}

impl EntryPointV1 {
    /// The offset of the entry point in the bytecode.
    pub fn pc(&self) -> (r: usize)
        ensures
            r == self.offset.0,
    {
        self.offset.0
    }

    /// A copy of the entry point.
    pub fn duplicate(&self) -> (r: EntryPointV1)
        ensures
            r@ == self@,
    {
        let mut builtins: Vec<String> = Vec::new();
        let mut i: usize = 0;
        while i < self.builtins.len()
            invariant
                i <= self.builtins@.len(),
                builtins@ == self.builtins@.take(i as int),
            decreases self.builtins@.len() - i,
        {
            builtins.push(self.builtins[i].clone());
            assert(builtins@ =~= self.builtins@.take(i + 1));
            i += 1;
        }
        assert(builtins@ =~= self.builtins@);
        EntryPointV1 { selector: self.selector, offset: self.offset, builtins }
    }
}

/// How many of the first `n` entry points have the selector `s`.
pub open spec fn count_selected<T: Selected>(eps: Seq<T>, s: EntryPointSelector, n: nat) -> nat
    decreases n,
{
    if n == 0 || n > eps.len() {
        0
    } else {
        count_selected(eps, s, (n - 1) as nat) + if eps[n - 1].selector_spec() == s {
            1nat
        } else {
            0nat
        }
    }
}

/// How many of the entry points have the selector `s`.
pub open spec fn occurrences<T: Selected>(eps: Seq<T>, s: EntryPointSelector) -> nat {
    count_selected(eps, s, eps.len())
}

/// What a search for a selector among entry points came to.
#[derive(Clone, Copy, Debug, PartialEq, Eq, Structural)]
pub enum Lookup {
    /// No entry point has the selector.
    NotFound,
    /// The entry point at this index has the selector, and no other has.
    Unique(usize),
    /// Several entry points have the selector.
    Duplicated,
}

/// Among the first `n` entry points, only the one at `i` has the selector `s`.
pub open spec fn only_at<T: Selected>(eps: Seq<T>, s: EntryPointSelector, n: int, i: int) -> bool {
    &&& 0 <= i < n
    &&& eps[i].selector_spec() == s
    &&& forall|j: int| 0 <= j < n && j != i ==> (#[trigger] eps[j]).selector_spec() != s
}

/// None of the first `n` entry points has the selector `s`.
pub open spec fn nowhere<T: Selected>(eps: Seq<T>, s: EntryPointSelector, n: int) -> bool {
    forall|j: int| 0 <= j < n ==> (#[trigger] eps[j]).selector_spec() != s
}

/// Searches the entry points for the selector `s`.
pub fn lookup_selector<T: Selected>(eps: &Vec<T>, s: EntryPointSelector) -> (r: Lookup)
    ensures
        match r {
            Lookup::NotFound => occurrences(eps@, s) == 0 && nowhere(eps@, s, eps@.len() as int),
            Lookup::Unique(i) => occurrences(eps@, s) == 1 && only_at(
                eps@,
                s,
                eps@.len() as int,
                i as int,
            ),
            Lookup::Duplicated => occurrences(eps@, s) >= 2,
        },
{
    let mut found: Lookup = Lookup::NotFound;
    let mut i: usize = 0;
    while i < eps.len()
        invariant
            i <= eps@.len(),
            match found {
                Lookup::NotFound => count_selected(eps@, s, i as nat) == 0 && nowhere(
                    eps@,
                    s,
                    i as int,
                ),
                Lookup::Unique(k) => count_selected(eps@, s, i as nat) == 1 && only_at(
                    eps@,
                    s,
                    i as int,
                    k as int,
                ),
                Lookup::Duplicated => count_selected(eps@, s, i as nat) >= 2,
            },
        decreases eps@.len() - i,
    {
        assert(count_selected(eps@, s, (i + 1) as nat) == count_selected(eps@, s, i as nat) + if eps@[i as int].selector_spec()
            == s {
            1nat
        } else {
            0nat
        });
        if eps[i].selector() == s {
            found =
            match found {
                Lookup::NotFound => Lookup::Unique(i),
                _ => Lookup::Duplicated,
            };
        }
        i += 1;
    }
    found
}

/// The selector that a constructor call must name: that of the name
/// `constructor`.
pub open spec fn constructor_selector_spec() -> EntryPointSelector {
    choose|c: EntryPointSelector|
        c.0.value() == selector_of(constants::CONSTRUCTOR_ENTRY_POINT_NAME.spec_bytes())
}

/// Whether a call of kind `typ` with selector `s` is a constructor call under
/// another name than the constructor's, whose selector is `constructor`.
pub open spec fn misnamed_constructor(
    typ: EntryPointType,
    s: EntryPointSelector,
    constructor: EntryPointSelector,
) -> bool {
    typ == EntryPointType::Constructor && s != constructor
}

/// The error with which the resolution of a call of kind `typ` with selector
/// `s` among the entry points `eps` of that kind fails, if it fails.
pub open spec fn resolution_error<T: Selected>(
    eps: Seq<T>,
    typ: EntryPointType,
    s: EntryPointSelector,
    constructor: EntryPointSelector,
) -> Option<PreExecutionError> {
    if misnamed_constructor(typ, s, constructor) {
        Some(PreExecutionError::InvalidConstructorEntryPointName)
    } else if occurrences(eps, s) == 0 {
        Some(PreExecutionError::EntryPointNotFound(s))
    } else if occurrences(eps, s) == 1 {
        None
    } else {
        Some(PreExecutionError::DuplicatedEntryPointSelector { selector: s, typ })
    }
}

/// The selector of the name `constructor`.
fn canonical_constructor_selector() -> (r: EntryPointSelector)
    ensures
        r == constructor_selector_spec(),
{
    let r = selector_from_name(constants::CONSTRUCTOR_ENTRY_POINT_NAME);
    proof {
        let c = constructor_selector_spec();
        assert(c.0.value() == r.0.value());
        lemma_value_injective(c.0, r.0);
    }
    r
}

/// A legacy class: a program and its entry points.
#[derive(Debug, Default, PartialEq, Eq)]
pub struct ContractClassV0Inner {
    pub program: cairo_vm::types::program::Program,
    pub entry_points_by_type: EntryPointsByType<EntryPoint>,
}

/// A legacy class, shared by those who hold it.
#[derive(Clone, Debug, Default, PartialEq, Eq)]
pub struct ContractClassV0(pub Arc<ContractClassV0Inner>);

/// The number of field elements that go into the hash of a legacy class with
/// the given numbers of entry points and builtins and the given length of
/// bytecode; the last one stands for the hinted class hash.
pub open spec fn v0_hashed_data_size(
    n_entry_points: nat,
    n_builtins: nat,
    bytecode_length: nat,
) -> nat {
    constants::CAIRO0_ENTRY_POINT_STRUCT_SIZE as nat * n_entry_points + n_builtins
        + bytecode_length + 1
}

/// The resources that a chain of `n` Pedersen hashes is charged with.
pub open spec fn is_pedersen_chain_cost(r: ExecutionResources, n: nat) -> bool {
    &&& r.n_steps == constants::N_STEPS_PER_PEDERSEN as nat * n
    &&& r.n_memory_holes == 0
    &&& r.builtin_instance_counter@.len() == 1
    &&& r.builtin_instance_counter@[0].0@ == "pedersen_builtin"@
    &&& r.builtin_instance_counter@[0].1 == n
}

impl ContractClassV0 {
    /// The number of field elements that go into the hash of this class.
    pub open spec fn hashed_data_size(&self) -> nat {
        v0_hashed_data_size(
            self.0.entry_points_by_type.total(),
            program_builtins_len(self.0.program),
            program_data_len(self.0.program),
        )
    }

    /// The selector of the first constructor, if the class has one.
    pub fn constructor_selector(&self) -> (r: Option<EntryPointSelector>)
        ensures
            r == (if self.0.entry_points_by_type.constructor@.len() == 0 {
                None
            } else {
                Some(self.0.entry_points_by_type.constructor@[0].selector)
            }),
    {
        if self.0.entry_points_by_type.constructor.len() == 0 {
            None
        } else {
            Some(self.0.entry_points_by_type.constructor[0].selector)
        }
    }

    /// The number of builtins that the program declares.
    pub fn n_builtins(&self) -> (r: usize)
        ensures
            r == program_builtins_len(self.0.program),
    {
        builtins_len(&self.0.program)
    }

    /// The length of the program's bytecode.
    pub fn bytecode_length(&self) -> (r: usize)
        ensures
            r == program_data_len(self.0.program),
    {
        data_len(&self.0.program)
    }

    /// The entry point that `call` means, given the selector `constructor` that
    /// a constructor call must name. A constructor call under another selector
    /// is refused whatever the class holds. Otherwise the call's selector must
    /// occur exactly once among the entry points of the call's kind.
    pub fn resolve_entry_point(
        &self,
        call: &CallEntryPoint,
        constructor: EntryPointSelector,
    ) -> (r: Result<EntryPoint, PreExecutionError>)
        ensures
            ({
                let eps = self.0.entry_points_by_type.bucket(call.entry_point_type);
                let s = call.entry_point_selector;
                match resolution_error(eps, call.entry_point_type, s, constructor) {
                    Some(e) => r == Err::<EntryPoint, PreExecutionError>(e),
                    None => r is Ok && exists|i: int|
                        only_at(eps, s, eps.len() as int, i) && r->Ok_0 == eps[i],
                }
            }),
    {
        let typ = call.entry_point_type;
        let s = call.entry_point_selector;
        if typ == EntryPointType::Constructor && s != constructor {
            return Err(PreExecutionError::InvalidConstructorEntryPointName);
        }
        let eps = self.0.entry_points_by_type.get(typ);
        match lookup_selector(eps, s) {
            Lookup::NotFound => Err(PreExecutionError::EntryPointNotFound(s)),
            Lookup::Unique(i) => Ok(eps[i]),
            Lookup::Duplicated => Err(
                PreExecutionError::DuplicatedEntryPointSelector { selector: s, typ },
            ),
        }
    }

    /// The entry point that `call` means: see `resolve_entry_point`, with the
    /// selector of the name `constructor`.
    pub fn get_entry_point(&self, call: &CallEntryPoint) -> (r: Result<
        EntryPoint,
        PreExecutionError,
    >)
        ensures
            ({
                let eps = self.0.entry_points_by_type.bucket(call.entry_point_type);
                let s = call.entry_point_selector;
                match resolution_error(
                    eps,
                    call.entry_point_type,
                    s,
                    constructor_selector_spec(),
                ) {
                    Some(e) => r == Err::<EntryPoint, PreExecutionError>(e),
                    None => r is Ok && exists|i: int|
                        only_at(eps, s, eps.len() as int, i) && r->Ok_0 == eps[i],
                }
            }),
    {
        self.resolve_entry_point(call, canonical_constructor_selector())
    }

    /// The number of entry points of all kinds.
    fn n_entry_points(&self) -> (r: usize)
        requires
            self.0.entry_points_by_type.total() <= usize::MAX,
        ensures
            r == self.0.entry_points_by_type.total(),
    {
        let eps = &self.0.entry_points_by_type;
        eps.constructor.len() + eps.external.len() + eps.l1_handler.len()
    }

    /// The resources that computing the hash of this class is charged with:
    /// one Pedersen hash for each field element that is hashed.
    pub fn estimate_casm_hash_computation_resources(&self) -> (r: ExecutionResources)
        requires
            constants::N_STEPS_PER_PEDERSEN as nat * self.hashed_data_size() <= usize::MAX,
        ensures
            is_pedersen_chain_cost(r, self.hashed_data_size()),
    {
        let hashed_data_size = constants::CAIRO0_ENTRY_POINT_STRUCT_SIZE * self.n_entry_points()
            + self.n_builtins() + self.bytecode_length() + 1;
        let n_steps = constants::N_STEPS_PER_PEDERSEN * hashed_data_size;
        let mut builtin_instance_counter: Vec<(String, usize)> = Vec::new();
        builtin_instance_counter.push((hash_builtin_name(), hashed_data_size));
        ExecutionResources { n_steps, n_memory_holes: 0, builtin_instance_counter }
    }

    /// The resources that computing the hash of this class is charged with,
    /// or `None` where a count does not fit the machine word.
    pub fn checked_estimate_casm_hash_computation_resources(&self) -> (r: Option<
        ExecutionResources,
    >)
        ensures
            match r {
                Some(res) => is_pedersen_chain_cost(res, self.hashed_data_size()),
                None => constants::N_STEPS_PER_PEDERSEN as nat * self.hashed_data_size()
                    > usize::MAX,
            },
    {
        let eps = &self.0.entry_points_by_type;
        let n_entry_points: u128 = eps.constructor.len() as u128 + eps.external.len() as u128
            + eps.l1_handler.len() as u128;
        let n_builtins: u128 = self.n_builtins() as u128;
        let bytecode_length: u128 = self.bytecode_length() as u128;
        let per_entry_point: u128 = constants::CAIRO0_ENTRY_POINT_STRUCT_SIZE as u128;
        let per_hash: u128 = constants::N_STEPS_PER_PEDERSEN as u128;
        let hashed_data_size: u128 = per_entry_point * n_entry_points + n_builtins
            + bytecode_length + 1;
        if per_hash * hashed_data_size > usize::MAX as u128 {
            None
        } else {
            Some(self.estimate_casm_hash_computation_resources())
        }
    }
}

/// The estimate for a legacy class does not fall when the number of entry
/// points, the number of builtins or the length of the bytecode grows.
pub proof fn lemma_v0_estimate_monotonic(
    n_entry_points: nat,
    n_builtins: nat,
    bytecode_length: nat,
    more_entry_points: nat,
    more_builtins: nat,
    longer_bytecode: nat,
)
    requires
        n_entry_points <= more_entry_points,
        n_builtins <= more_builtins,
        bytecode_length <= longer_bytecode,
    ensures
        v0_hashed_data_size(n_entry_points, n_builtins, bytecode_length) <= v0_hashed_data_size(
            more_entry_points,
            more_builtins,
            longer_bytecode,
        ),
        constants::N_STEPS_PER_PEDERSEN as nat * v0_hashed_data_size(
            n_entry_points,
            n_builtins,
            bytecode_length,
        ) <= constants::N_STEPS_PER_PEDERSEN as nat * v0_hashed_data_size(
            more_entry_points,
            more_builtins,
            longer_bytecode,
        ),
{
}

/// A hint of the compiler, as the hint processor reads it.
#[verifier::external_type_specification]
#[verifier::external_body]
pub struct ExHint(cairo_lang_casm::hints::Hint);

/// A class compiled to bytecode: a program, its entry points, and its hints by
/// their serialized form.
#[derive(Debug, Default, PartialEq, Eq)]
pub struct ContractClassV1Inner {
    pub program: cairo_vm::types::program::Program,
    pub entry_points_by_type: EntryPointsByType<EntryPointV1>,
    /// Each hint of the class under its serialized form; no form stands twice.
    pub hints: Vec<(String, cairo_lang_casm::hints::Hint)>,
}

/// A class compiled to bytecode, shared by those who hold it.
#[derive(Clone, Debug, Default, PartialEq, Eq)]
pub struct ContractClassV1(pub Arc<ContractClassV1Inner>);

/// The steps that hashing a bytecode of the given length is charged with:
/// 503 and 5.7 for each field element, the fraction dropped.
pub open spec fn v1_n_steps(bytecode_length: nat) -> nat {
    (5030 + 57 * bytecode_length) / 10
}

/// The Poseidon invocations that hashing a bytecode of the given length is
/// charged with: 10.9 and 0.5 for each field element, the fraction dropped.
pub open spec fn v1_n_poseidon_builtins(bytecode_length: nat) -> nat {
    (109 + 5 * bytecode_length) / 10
}

/// The smaller of a number and the largest machine word.
pub open spec fn clip(n: nat) -> nat {
    if n > usize::MAX {
        usize::MAX as nat
    } else {
        n
    }
}

impl ContractClassV1 {
    /// The selector of the first constructor, if the class has one.
    pub fn constructor_selector(&self) -> (r: Option<EntryPointSelector>)
        ensures
            r == (if self.0.entry_points_by_type.constructor@.len() == 0 {
                None
            } else {
                Some(self.0.entry_points_by_type.constructor@[0].selector)
            }),
    {
        if self.0.entry_points_by_type.constructor.len() == 0 {
            None
        } else {
            Some(self.0.entry_points_by_type.constructor[0].selector)
        }
    }

    /// The length of the program's bytecode.
    pub fn bytecode_length(&self) -> (r: usize)
        ensures
            r == program_data_len(self.0.program),
    {
        data_len(&self.0.program)
    }

    /// The entry point that `call` means, given the selector `constructor` that
    /// a constructor call must name. A constructor call under another selector
    /// is refused whatever the class holds. Otherwise the call's selector must
    /// occur exactly once among the entry points of the call's kind.
    pub fn resolve_entry_point(
        &self,
        call: &CallEntryPoint,
        constructor: EntryPointSelector,
    ) -> (r: Result<EntryPointV1, PreExecutionError>)
        ensures
            ({
                let eps = self.0.entry_points_by_type.bucket(call.entry_point_type);
                let s = call.entry_point_selector;
                match resolution_error(eps, call.entry_point_type, s, constructor) {
                    Some(e) => r == Err::<EntryPointV1, PreExecutionError>(e),
                    None => r is Ok && exists|i: int|
                        only_at(eps, s, eps.len() as int, i) && r->Ok_0@ == eps[i]@,
                }
            }),
    {
        let typ = call.entry_point_type;
        let s = call.entry_point_selector;
        if typ == EntryPointType::Constructor && s != constructor {
            return Err(PreExecutionError::InvalidConstructorEntryPointName);
        }
        let eps = self.0.entry_points_by_type.get(typ);
        match lookup_selector(eps, s) {
            Lookup::NotFound => Err(PreExecutionError::EntryPointNotFound(s)),
            Lookup::Unique(i) => Ok(eps[i].duplicate()),
            Lookup::Duplicated => Err(
                PreExecutionError::DuplicatedEntryPointSelector { selector: s, typ },
            ),
        }
    }

    /// The entry point that `call` means: see `resolve_entry_point`, with the
    /// selector of the name `constructor`.
    pub fn get_entry_point(&self, call: &CallEntryPoint) -> (r: Result<
        EntryPointV1,
        PreExecutionError,
    >)
        ensures
            ({
                let eps = self.0.entry_points_by_type.bucket(call.entry_point_type);
                let s = call.entry_point_selector;
                match resolution_error(
                    eps,
                    call.entry_point_type,
                    s,
                    constructor_selector_spec(),
                ) {
                    Some(e) => r == Err::<EntryPointV1, PreExecutionError>(e),
                    None => r is Ok && exists|i: int|
                        only_at(eps, s, eps.len() as int, i) && r->Ok_0@ == eps[i]@,
                }
            }),
    {
        self.resolve_entry_point(call, canonical_constructor_selector())
    }

    /// The resources that computing the hash of this class is charged with: a
    /// linear estimate in the length of the bytecode, each count cut to the
    /// machine word.
    pub fn estimate_casm_hash_computation_resources(&self) -> (r: ExecutionResources)
        ensures
            r.n_steps == clip(v1_n_steps(program_data_len(self.0.program))),
            r.n_memory_holes == 0,
            r.builtin_instance_counter@.len() == 1,
            r.builtin_instance_counter@[0].0@ == "poseidon_builtin"@,
            r.builtin_instance_counter@[0].1 == clip(
                v1_n_poseidon_builtins(program_data_len(self.0.program)),
            ),
    {
        let length: u128 = self.bytecode_length() as u128;
        assert(usize::MAX <= u64::MAX);
        let steps: u128 = (5030 + 57 * length) / 10;
        let poseidons: u128 = (109 + 5 * length) / 10;
        let n_steps: usize = if steps > usize::MAX as u128 {
            usize::MAX
        } else {
            steps as usize
        };
        let n_poseidon_builtins: usize = if poseidons > usize::MAX as u128 {
            usize::MAX
        } else {
            poseidons as usize
        };
        let mut counter: Vec<(String, usize)> = Vec::new();
        counter.push((poseidon_builtin_name(), n_poseidon_builtins));
        ExecutionResources { n_steps, n_memory_holes: 0, builtin_instance_counter: counter }
    }
}

/// A contract class that can be run.
#[derive(Clone, Debug, PartialEq, Eq)]
pub enum ContractClass {
    V0(ContractClassV0),
    V1(ContractClassV1),
}

/// The entry point that a call means, in the form of the class that holds it.
#[derive(Clone, Debug, PartialEq, Eq)]
pub enum ResolvedEntryPoint {
    V0(EntryPoint),
    V1(EntryPointV1),
}

impl ContractClass {
    /// The entry point that `call` means in this class, whatever its format.
    /// A constructor call under another selector than the constructor's is
    /// refused whatever the class holds. Otherwise the call's selector must
    /// occur exactly once among the entry points of the call's kind.
    pub fn get_entry_point(&self, call: &CallEntryPoint) -> (r: Result<
        ResolvedEntryPoint,
        PreExecutionError,
    >)
        ensures
            match self {
                ContractClass::V0(class) => {
                    let eps = class.0.entry_points_by_type.bucket(call.entry_point_type);
                    let s = call.entry_point_selector;
                    match resolution_error(
                        eps,
                        call.entry_point_type,
                        s,
                        constructor_selector_spec(),
                    ) {
                        Some(e) => r == Err::<ResolvedEntryPoint, PreExecutionError>(e),
                        None => r matches Ok(ResolvedEntryPoint::V0(ep)) && exists|i: int|
                            only_at(eps, s, eps.len() as int, i) && ep == eps[i],
                    }
                },
                ContractClass::V1(class) => {
                    let eps = class.0.entry_points_by_type.bucket(call.entry_point_type);
                    let s = call.entry_point_selector;
                    match resolution_error(
                        eps,
                        call.entry_point_type,
                        s,
                        constructor_selector_spec(),
                    ) {
                        Some(e) => r == Err::<ResolvedEntryPoint, PreExecutionError>(e),
                        None => r matches Ok(ResolvedEntryPoint::V1(ep)) && exists|i: int|
                            only_at(eps, s, eps.len() as int, i) && ep@ == eps[i]@,
                    }
                },
            },
    {
        match self {
            ContractClass::V0(class) => match class.get_entry_point(call) {
                Ok(ep) => Ok(ResolvedEntryPoint::V0(ep)),
                Err(e) => Err(e),
            },
            ContractClass::V1(class) => match class.get_entry_point(call) {
                Ok(ep) => Ok(ResolvedEntryPoint::V1(ep)),
                Err(e) => Err(e),
            },
        }
    }

    /// The selector of the class's first constructor, if it has one.
    pub fn constructor_selector(&self) -> (r: Option<EntryPointSelector>)
        ensures
            r == (match self {
                ContractClass::V0(class) => if class.0.entry_points_by_type.constructor@.len()
                    == 0 {
                    None
                } else {
                    Some(class.0.entry_points_by_type.constructor@[0].selector)
                },
                ContractClass::V1(class) => if class.0.entry_points_by_type.constructor@.len()
                    == 0 {
                    None
                } else {
                    Some(class.0.entry_points_by_type.constructor@[0].selector)
                },
            }),
    {
        match self {
            ContractClass::V0(class) => class.constructor_selector(),
            ContractClass::V1(class) => class.constructor_selector(),
        }
    }

    /// Whether the estimate for this class can be counted in machine words.
    pub open spec fn estimate_fits(&self) -> bool {
        match self {
            ContractClass::V0(class) => constants::N_STEPS_PER_PEDERSEN as nat
                * class.hashed_data_size() <= usize::MAX,
            ContractClass::V1(_) => true,
        }
    }

    /// What the estimate for this class is.
    pub open spec fn is_estimate(&self, r: ExecutionResources) -> bool {
        match self {
            ContractClass::V0(class) => is_pedersen_chain_cost(r, class.hashed_data_size()),
            ContractClass::V1(class) => {
                &&& r.n_steps == clip(v1_n_steps(program_data_len(class.0.program)))
                &&& r.n_memory_holes == 0
                &&& r.builtin_instance_counter@.len() == 1
                &&& r.builtin_instance_counter@[0].0@ == "poseidon_builtin"@
                &&& r.builtin_instance_counter@[0].1 == clip(
                    v1_n_poseidon_builtins(program_data_len(class.0.program)),
                )
            },
        }
    }

    /// The resources that computing the hash of this class is charged with.
    pub fn estimate_casm_hash_computation_resources(&self) -> (r: ExecutionResources)
        requires
            self.estimate_fits(),
        ensures
            self.is_estimate(r),
    {
        match self {
            ContractClass::V0(class) => class.estimate_casm_hash_computation_resources(),
            ContractClass::V1(class) => class.estimate_casm_hash_computation_resources(),
        }
    }

    /// The resources that computing the hash of this class is charged with,
    /// or `None` where a count does not fit the machine word.
    pub fn checked_estimate_casm_hash_computation_resources(&self) -> (r: Option<
        ExecutionResources,
    >)
        ensures
            match r {
                Some(res) => self.estimate_fits() && self.is_estimate(res),
                None => !self.estimate_fits(),
            },
    {
        match self {
            ContractClass::V0(class) => class.checked_estimate_casm_hash_computation_resources(),
            ContractClass::V1(class) => Some(class.estimate_casm_hash_computation_resources()),
        }
    }
}

} // verus!
