use std::sync::Arc;

use blockifier::abi::abi_utils::selector_from_name;
use blockifier::execution::casm::{
    assemble, convert_entry_points_v1, hint_params_from_code, hint_to_hint_params,
    serialize_hints, CasmContractClass, CasmContractEntryPoint, CasmContractEntryPoints,
    ClassError, HintParams,
};
use blockifier::execution::contract_class::{
    lookup_selector, ContractClass, ContractClassV0, ContractClassV0Inner, ContractClassV1,
    ContractClassV1Inner, EntryPointV1, EntryPointsByType, Lookup, ResolvedEntryPoint,
};
use blockifier::execution::entry_point::{CallEntryPoint, ExecutionResources};
use blockifier::execution::errors::PreExecutionError;
use blockifier::primitives::{
    EntryPoint, EntryPointOffset, EntryPointSelector, EntryPointType, Felt,
};
use cairo_lang_casm::hints::{CoreHint, CoreHintBase, Hint};
use cairo_lang_casm::operand::{CellRef, Register};
use cairo_vm::types::builtin_name::BuiltinName;
use cairo_vm::types::program::Program;
use cairo_vm::types::relocatable::MaybeRelocatable;
use cairo_vm::Felt252;

fn selector(n: u128) -> EntryPointSelector {
    EntryPointSelector(Felt::from_u128(n))
}

fn constructor_selector() -> EntryPointSelector {
    EntryPointSelector(Felt {
        hi: 0x028ffe4ff0f226a9107253e17a904099,
        lo: 0xaa4f63a02a5621de0576e5aa71bc5194,
    })
}

fn v1_entry(n: u128, offset: usize) -> EntryPointV1 {
    EntryPointV1 {
        selector: selector(n),
        offset: EntryPointOffset(offset),
        builtins: vec!["range_check_builtin".to_string()],
    }
}

fn v0_entry(n: u128, offset: usize) -> EntryPoint {
    EntryPoint { selector: selector(n), offset: EntryPointOffset(offset) }
}

fn program(n_builtins: usize, length: usize) -> Program {
    let builtins = [BuiltinName::pedersen, BuiltinName::range_check, BuiltinName::bitwise];
    Program::new(
        builtins[..n_builtins].to_vec(),
        (0..length).map(|i| MaybeRelocatable::from(Felt252::from(i as u64))).collect(),
        None,
        Default::default(),
        Default::default(),
        Default::default(),
        vec![],
        None,
    )
    .unwrap()
}

fn v1_class(entry_points_by_type: EntryPointsByType<EntryPointV1>, length: usize) -> ContractClassV1 {
    ContractClassV1(Arc::new(ContractClassV1Inner {
        program: program(0, length),
        entry_points_by_type,
        hints: vec![],
    }))
}

fn v0_class(
    entry_points_by_type: EntryPointsByType<EntryPoint>,
    n_builtins: usize,
    length: usize,
) -> ContractClassV0 {
    ContractClassV0(Arc::new(ContractClassV0Inner {
        program: program(n_builtins, length),
        entry_points_by_type,
    }))
}

fn call(entry_point_type: EntryPointType, entry_point_selector: EntryPointSelector) -> CallEntryPoint {
    CallEntryPoint { entry_point_type, entry_point_selector, ..Default::default() }
}

fn alloc_segment(offset: i16) -> Hint {
    Hint::Core(CoreHintBase::Core(CoreHint::AllocSegment {
        dst: CellRef { register: Register::AP, offset },
    }))
}

#[test]
fn selector_of_a_name_is_its_starknet_keccak() {
    assert_eq!(selector_from_name("constructor"), constructor_selector());
    assert_eq!(
        selector_from_name("transfer"),
        EntryPointSelector(Felt {
            hi: 0x0083afd3f4caedc6eebf44246fe54e38,
            lo: 0xc95e3179a5ec9ea81740eca5b482d12e,
        })
    );
    assert!(selector_from_name("constructor") != selector_from_name("Constructor"));
}

#[test]
fn lookup_tells_none_one_and_several_apart() {
    let eps = vec![v0_entry(1, 10), v0_entry(2, 20), v0_entry(1, 30), v0_entry(3, 40)];
    assert_eq!(lookup_selector(&eps, selector(9)), Lookup::NotFound);
    assert_eq!(lookup_selector(&eps, selector(2)), Lookup::Unique(1));
    assert_eq!(lookup_selector(&eps, selector(3)), Lookup::Unique(3));
    assert_eq!(lookup_selector(&eps, selector(1)), Lookup::Duplicated);
    assert_eq!(lookup_selector(&Vec::<EntryPoint>::new(), selector(1)), Lookup::NotFound);
}

#[test]
fn entry_point_that_stands_once_is_returned() {
    let class = v1_class(
        EntryPointsByType {
            constructor: vec![],
            external: vec![v1_entry(1, 10), v1_entry(2, 20), v1_entry(3, 30)],
            l1_handler: vec![v1_entry(2, 99)],
        },
        0,
    );
    assert_eq!(class.get_entry_point(&call(EntryPointType::External, selector(2))), Ok(v1_entry(2, 20)));
    assert_eq!(class.get_entry_point(&call(EntryPointType::L1Handler, selector(2))), Ok(v1_entry(2, 99)));
    assert_eq!(class.get_entry_point(&call(EntryPointType::External, selector(2))).unwrap().pc(), 20);
}

#[test]
fn entry_point_that_is_absent_is_not_found() {
    let class = v1_class(
        EntryPointsByType {
            constructor: vec![],
            external: vec![v1_entry(1, 10)],
            l1_handler: vec![v1_entry(2, 99)],
        },
        0,
    );
    assert_eq!(
        class.get_entry_point(&call(EntryPointType::External, selector(2))),
        Err(PreExecutionError::EntryPointNotFound(selector(2)))
    );
    assert_eq!(
        class.get_entry_point(&call(EntryPointType::Constructor, constructor_selector())),
        Err(PreExecutionError::EntryPointNotFound(constructor_selector()))
    );
}

#[test]
fn entry_point_that_stands_twice_is_refused() {
    let class = v1_class(
        EntryPointsByType {
            constructor: vec![],
            external: vec![v1_entry(1, 10), v1_entry(2, 20), v1_entry(1, 30)],
            l1_handler: vec![],
        },
        0,
    );
    assert_eq!(
        class.get_entry_point(&call(EntryPointType::External, selector(1))),
        Err(PreExecutionError::DuplicatedEntryPointSelector {
            selector: selector(1),
            typ: EntryPointType::External
        })
    );
}

#[test]
fn constructor_call_under_another_name_is_refused_whatever_the_class_holds() {
    let with_it = v1_class(
        EntryPointsByType {
            constructor: vec![v1_entry(5, 10)],
            external: vec![],
            l1_handler: vec![],
        },
        0,
    );
    let without = v1_class(EntryPointsByType::default(), 0);
    for class in [&with_it, &without] {
        assert_eq!(
            class.get_entry_point(&call(EntryPointType::Constructor, selector(5))),
            Err(PreExecutionError::InvalidConstructorEntryPointName)
        );
    }
    // Under its own name the constructor is found where the class has it.
    let proper = v1_class(
        EntryPointsByType {
            constructor: vec![EntryPointV1 {
                selector: constructor_selector(),
                offset: EntryPointOffset(7),
                builtins: vec![],
            }],
            external: vec![],
            l1_handler: vec![],
        },
        0,
    );
    assert_eq!(
        proper.get_entry_point(&call(EntryPointType::Constructor, constructor_selector())).unwrap().pc(),
        7
    );
    // The selector that a constructor call must name can be given.
    assert_eq!(
        with_it.resolve_entry_point(&call(EntryPointType::Constructor, selector(5)), selector(5)),
        Ok(v1_entry(5, 10))
    );
}

#[test]
fn legacy_class_resolves_entry_points_alike() {
    let class = v0_class(
        EntryPointsByType {
            constructor: vec![v0_entry(8, 1)],
            external: vec![v0_entry(1, 10), v0_entry(2, 20), v0_entry(1, 30)],
            l1_handler: vec![],
        },
        0,
        0,
    );
    assert_eq!(class.get_entry_point(&call(EntryPointType::External, selector(2))), Ok(v0_entry(2, 20)));
    assert_eq!(
        class.get_entry_point(&call(EntryPointType::External, selector(3))),
        Err(PreExecutionError::EntryPointNotFound(selector(3)))
    );
    assert_eq!(
        class.get_entry_point(&call(EntryPointType::External, selector(1))),
        Err(PreExecutionError::DuplicatedEntryPointSelector {
            selector: selector(1),
            typ: EntryPointType::External
        })
    );
    assert_eq!(
        class.get_entry_point(&call(EntryPointType::Constructor, selector(8))),
        Err(PreExecutionError::InvalidConstructorEntryPointName)
    );
}

#[test]
fn constructor_selector_is_that_of_the_first_constructor() {
    let v0 = v0_class(
        EntryPointsByType {
            constructor: vec![v0_entry(8, 1), v0_entry(9, 2)],
            external: vec![v0_entry(1, 10)],
            l1_handler: vec![],
        },
        0,
        0,
    );
    assert_eq!(v0.constructor_selector(), Some(selector(8)));
    assert_eq!(ContractClass::V0(v0).constructor_selector(), Some(selector(8)));
    let v1 = v1_class(
        EntryPointsByType { constructor: vec![], external: vec![v1_entry(1, 10)], l1_handler: vec![] },
        0,
    );
    assert_eq!(v1.constructor_selector(), None);
    assert_eq!(ContractClass::V1(v1).constructor_selector(), None);
}

#[test]
fn legacy_estimate_counts_one_pedersen_per_hashed_element() {
    let class = v0_class(
        EntryPointsByType {
            constructor: vec![v0_entry(8, 1)],
            external: vec![v0_entry(1, 10), v0_entry(2, 20)],
            l1_handler: vec![v0_entry(3, 30)],
        },
        2,
        100,
    );
    assert_eq!(class.n_builtins(), 2);
    assert_eq!(class.bytecode_length(), 100);
    // 2 * 4 entry points + 2 builtins + 100 elements + 1 = 111.
    let expected = ExecutionResources {
        n_steps: 888,
        n_memory_holes: 0,
        builtin_instance_counter: vec![("pedersen_builtin".to_string(), 111)],
    };
    assert_eq!(class.estimate_casm_hash_computation_resources(), expected);
    assert_eq!(class.checked_estimate_casm_hash_computation_resources(), Some(expected.clone()));
    let class = ContractClass::V0(class);
    assert_eq!(class.estimate_casm_hash_computation_resources(), expected);
    assert_eq!(class.checked_estimate_casm_hash_computation_resources(), Some(expected));
}

#[test]
fn legacy_estimate_of_an_empty_class() {
    let class = v0_class(EntryPointsByType::default(), 0, 0);
    assert_eq!(
        class.estimate_casm_hash_computation_resources(),
        ExecutionResources {
            n_steps: 8,
            n_memory_holes: 0,
            builtin_instance_counter: vec![("pedersen_builtin".to_string(), 1)],
        }
    );
}

#[test]
fn legacy_estimate_does_not_fall_when_the_class_grows() {
    let steps = |n_entry_points: usize, n_builtins: usize, length: usize| {
        v0_class(
            EntryPointsByType {
                constructor: vec![],
                external: (0..n_entry_points).map(|i| v0_entry(i as u128, i)).collect(),
                l1_handler: vec![],
            },
            n_builtins,
            length,
        )
        .estimate_casm_hash_computation_resources()
        .n_steps
    };
    assert!(steps(1, 1, 10) <= steps(2, 1, 10));
    assert!(steps(1, 1, 10) <= steps(1, 2, 10));
    assert!(steps(1, 1, 10) <= steps(1, 1, 11));
    assert_eq!(steps(2, 1, 10) - steps(1, 1, 10), 16);
    assert_eq!(steps(1, 2, 10) - steps(1, 1, 10), 8);
    assert_eq!(steps(1, 1, 11) - steps(1, 1, 10), 8);
}

#[test]
fn bytecode_estimate_is_linear_in_the_length() {
    let estimate = |length: usize| {
        v1_class(EntryPointsByType::default(), length).estimate_casm_hash_computation_resources()
    };
    assert_eq!(
        estimate(0),
        ExecutionResources {
            n_steps: 503,
            n_memory_holes: 0,
            builtin_instance_counter: vec![("poseidon_builtin".to_string(), 10)],
        }
    );
    // 503 + 5.7 * 1 = 508.7; 10.9 + 0.5 * 1 = 11.4.
    assert_eq!(estimate(1).n_steps, 508);
    assert_eq!(estimate(1).builtin_instance_counter[0].1, 11);
    // 503 + 570 = 1073; 10.9 + 50 = 60.9.
    assert_eq!(estimate(100).n_steps, 1073);
    assert_eq!(estimate(100).builtin_instance_counter[0].1, 60);
    let class = ContractClass::V1(v1_class(EntryPointsByType::default(), 3));
    // 503 + 17.1 = 520.1; 10.9 + 1.5 = 12.4.
    assert_eq!(class.estimate_casm_hash_computation_resources().n_steps, 520);
    assert_eq!(
        class.checked_estimate_casm_hash_computation_resources().unwrap().builtin_instance_counter,
        vec![("poseidon_builtin".to_string(), 12)]
    );
}

#[test]
fn bytecode_estimate_agrees_with_the_floating_point_formula() {
    for length in (0..2000usize).chain([4095, 4096, 65535, 1_000_003]) {
        let expected_steps = (503.0 + length as f64 * 5.7) as usize;
        let expected_poseidons = (10.9 + length as f64 * 0.5) as usize;
        let steps = (5030 + 57 * length as u128) / 10;
        let poseidons = (109 + 5 * length as u128) / 10;
        assert_eq!(steps as usize, expected_steps, "steps for {length}");
        assert_eq!(poseidons as usize, expected_poseidons, "poseidons for {length}");
    }
    for length in [0usize, 7, 10, 999] {
        let estimate =
            v1_class(EntryPointsByType::default(), length).estimate_casm_hash_computation_resources();
        assert_eq!(estimate.n_steps, (503.0 + length as f64 * 5.7) as usize);
        assert_eq!(
            estimate.builtin_instance_counter[0].1,
            (10.9 + length as f64 * 0.5) as usize
        );
    }
}

#[test]
fn hint_in_the_interpreters_shape_has_its_json_as_code_and_tracks_nothing() {
    let hint = alloc_segment(3);
    let params = hint_to_hint_params(&hint).unwrap();
    assert_eq!(
        params,
        HintParams {
            code: serde_json::to_string(&hint).unwrap(),
            accessible_scopes: vec![],
            reference_ids: vec![],
        }
    );
    assert!(params.code.contains("AllocSegment"));
    assert_eq!(hint_params_from_code("x".to_string()).code, "x");
}

#[test]
fn compiler_entry_points_get_selector_offset_and_suffixed_builtins() {
    let converted = convert_entry_points_v1(vec![
        CasmContractEntryPoint {
            selector: Felt::from_u128(11),
            offset: 5,
            builtins: vec!["range_check".to_string(), "pedersen".to_string()],
        },
        CasmContractEntryPoint { selector: Felt::from_u128(12), offset: 9, builtins: vec![] },
    ]);
    assert_eq!(
        converted,
        Ok(vec![
            EntryPointV1 {
                selector: selector(11),
                offset: EntryPointOffset(5),
                builtins: vec!["range_check_builtin".to_string(), "pedersen_builtin".to_string()],
            },
            EntryPointV1 { selector: selector(12), offset: EntryPointOffset(9), builtins: vec![] },
        ])
    );
    assert_eq!(convert_entry_points_v1(vec![]), Ok(vec![]));
}

fn casm_class(length: u128, hints: Vec<(usize, Vec<Hint>)>) -> CasmContractClass {
    CasmContractClass {
        bytecode: (0..length).map(Felt::from_u128).collect(),
        hints,
        entry_points_by_type: CasmContractEntryPoints {
            external: vec![CasmContractEntryPoint {
                selector: Felt::from_u128(11),
                offset: 1,
                builtins: vec!["bitwise".to_string()],
            }],
            l1_handler: vec![],
            constructor: vec![CasmContractEntryPoint {
                selector: Felt::from_u128(12),
                offset: 2,
                builtins: vec![],
            }],
        },
    }
}

#[test]
fn class_from_the_compilers_output() {
    let hints = vec![
        (0, vec![alloc_segment(1), alloc_segment(2)]),
        (3, vec![alloc_segment(1)]),
        (0, vec![alloc_segment(4)]),
    ];
    let class = ContractClassV1::try_from(casm_class(5, hints)).unwrap();
    assert_eq!(class.bytecode_length(), 5);
    assert_eq!(class.0.program.builtins_len(), 0);
    let data: Vec<MaybeRelocatable> =
        (0..5u64).map(|i| MaybeRelocatable::from(Felt252::from(i))).collect();
    assert_eq!(class.0.program.iter_data().cloned().collect::<Vec<_>>(), data);
    assert_eq!(
        class.0.entry_points_by_type,
        EntryPointsByType {
            constructor: vec![EntryPointV1 {
                selector: selector(12),
                offset: EntryPointOffset(2),
                builtins: vec![],
            }],
            external: vec![EntryPointV1 {
                selector: selector(11),
                offset: EntryPointOffset(1),
                builtins: vec!["bitwise_builtin".to_string()],
            }],
            l1_handler: vec![],
        }
    );
    // Each hint once under its serialized form, in the order in which the forms first came.
    let by_code: Vec<(String, Hint)> = [1, 2, 4]
        .into_iter()
        .map(|offset| (serde_json::to_string(&alloc_segment(offset)).unwrap(), alloc_segment(offset)))
        .collect();
    assert_eq!(class.0.hints, by_code);
    // The later entry for offset 0 replaced the earlier one.
    let hints_of_program: std::collections::BTreeMap<
        usize,
        Vec<cairo_vm::serde::deserialize_program::HintParams>,
    > = (&class.0.program.shared_program_data.hints_collection).into();
    let params = |offset: i16| cairo_vm::serde::deserialize_program::HintParams {
        code: serde_json::to_string(&alloc_segment(offset)).unwrap(),
        accessible_scopes: vec![],
        flow_tracking_data: cairo_vm::serde::deserialize_program::FlowTrackingData {
            ap_tracking: cairo_vm::serde::deserialize_program::ApTracking::new(),
            reference_ids: Default::default(),
        },
    };
    assert_eq!(
        hints_of_program,
        std::collections::BTreeMap::from([(0, vec![params(4)]), (3, vec![params(1)])])
    );
}

#[test]
fn class_without_hints_and_bytecode() {
    let class = ContractClassV1::try_from(casm_class(0, vec![])).unwrap();
    assert_eq!(class.bytecode_length(), 0);
    assert_eq!(class.0.hints, vec![]);
    assert_eq!(class.constructor_selector(), Some(selector(12)));
}

#[test]
fn hint_beyond_the_bytecode_fails() {
    let hints = vec![(0, vec![alloc_segment(1)]), (5, vec![alloc_segment(2)])];
    assert_eq!(ContractClassV1::try_from(casm_class(5, hints)), Err(ClassError::InvalidHintPc));
    // An offset with an empty list of hints counts.
    assert_eq!(
        ContractClassV1::try_from(casm_class(5, vec![(5, vec![])])),
        Err(ClassError::InvalidHintPc)
    );
    assert!(ContractClassV1::try_from(casm_class(6, vec![(5, vec![])])).is_ok());
    assert_eq!(
        ContractClassV1::try_from(casm_class(0, vec![(0, vec![alloc_segment(1)])])),
        Err(ClassError::InvalidHintPc)
    );
}

#[test]
fn class_from_hints_with_given_codes() {
    let serialized = vec![
        (1, vec![("b".to_string(), alloc_segment(1)), ("a".to_string(), alloc_segment(2))]),
        (0, vec![("b".to_string(), alloc_segment(3))]),
    ];
    let casm = casm_class(2, vec![]);
    let class = assemble(casm.bytecode, serialized, casm.entry_points_by_type).unwrap();
    assert_eq!(
        class.0.hints,
        vec![("b".to_string(), alloc_segment(3)), ("a".to_string(), alloc_segment(2))]
    );
    let serialized = serialize_hints(&vec![(7, vec![alloc_segment(1)]), (7, vec![])]).unwrap();
    assert_eq!(
        serialized,
        vec![
            (7, vec![(serde_json::to_string(&alloc_segment(1)).unwrap(), alloc_segment(1))]),
            (7, vec![])
        ]
    );
}

#[test]
fn class_of_either_format_resolves_entry_points() {
    let v0 = ContractClass::V0(v0_class(
        EntryPointsByType {
            constructor: vec![],
            external: vec![v0_entry(1, 10), v0_entry(2, 20)],
            l1_handler: vec![],
        },
        0,
        0,
    ));
    let v1 = ContractClass::V1(v1_class(
        EntryPointsByType {
            constructor: vec![],
            external: vec![v1_entry(1, 10), v1_entry(1, 20)],
            l1_handler: vec![v1_entry(3, 30)],
        },
        0,
    ));
    assert_eq!(
        v0.get_entry_point(&call(EntryPointType::External, selector(2))),
        Ok(ResolvedEntryPoint::V0(v0_entry(2, 20)))
    );
    assert_eq!(
        v1.get_entry_point(&call(EntryPointType::L1Handler, selector(3))),
        Ok(ResolvedEntryPoint::V1(v1_entry(3, 30)))
    );
    assert_eq!(
        v0.get_entry_point(&call(EntryPointType::L1Handler, selector(2))),
        Err(PreExecutionError::EntryPointNotFound(selector(2)))
    );
    assert_eq!(
        v1.get_entry_point(&call(EntryPointType::External, selector(1))),
        Err(PreExecutionError::DuplicatedEntryPointSelector {
            selector: selector(1),
            typ: EntryPointType::External
        })
    );
    assert_eq!(
        v1.get_entry_point(&call(EntryPointType::Constructor, selector(1))),
        Err(PreExecutionError::InvalidConstructorEntryPointName)
    );
}

#[test]
fn bytecode_elements_are_reduced_into_the_field() {
    let two = num_bigint::BigUint::from(2u8);
    let prime = two.pow(251) + num_bigint::BigUint::from(17u8) * two.pow(192) + 1u8;
    let largest = two.pow(256) - 1u8;
    let mut casm = casm_class(0, vec![]);
    casm.bytecode = vec![
        Felt { hi: u128::MAX, lo: u128::MAX },
        Felt { hi: 1, lo: 2 },
        Felt { hi: 0x0800000000000011_0000000000000000, lo: 1 },
    ];
    let class = ContractClassV1::try_from(casm).unwrap();
    let data: Vec<MaybeRelocatable> = class.0.program.iter_data().cloned().collect();
    assert_eq!(
        data,
        vec![
            MaybeRelocatable::from(Felt252::from(largest % &prime)),
            MaybeRelocatable::from(Felt252::from(two.pow(128) + 2u8)),
            MaybeRelocatable::from(Felt252::from(0u8)),
        ]
    );
}

#[test]
fn class_without_hints_with_one_external_entry_point() {
    let class = ContractClassV1::try_from(CasmContractClass {
        bytecode: vec![],
        hints: vec![],
        entry_points_by_type: CasmContractEntryPoints {
            constructor: vec![],
            l1_handler: vec![],
            external: vec![CasmContractEntryPoint {
                selector: Felt::from_u128(5),
                offset: 3,
                builtins: vec!["range_check".to_string()],
            }],
        },
    })
    .unwrap();
    assert_eq!(
        class.0.entry_points_by_type,
        EntryPointsByType {
            constructor: vec![],
            external: vec![EntryPointV1 {
                selector: selector(5),
                offset: EntryPointOffset(3),
                builtins: vec!["range_check_builtin".to_string()],
            }],
            l1_handler: vec![],
        }
    );
    assert!(class.0.hints.is_empty());
    assert_eq!(class.bytecode_length(), 0);
}
