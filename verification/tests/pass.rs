use std::hash::RandomState;

use cairo_lang_utils::ordered_hash_map::OrderedHashMap;
use store_variables::program::{
    BranchInfo, BranchTarget, Invocation, LibfuncId, PushValue, Statement,
};
use store_variables::signature::{
    ApChange, BranchSignature, DeferredVariableKind, LibfuncInfo, LibfuncSignature, OutputKind,
    OutputVarInfo, ParamSignature,
};
use store_variables::{add_store_statements, try_add_store_statements, LocalVariables, StoreError};

const FELT: u64 = 7;

fn call(id: u64, args: &[u64], results: &[u64]) -> Statement {
    Statement::Invocation(Invocation {
        libfunc_id: LibfuncId::Other(id),
        args: args.to_vec(),
        branches: vec![BranchInfo { target: BranchTarget::Fallthrough, results: results.to_vec() }],
    })
}

fn primitive(id: LibfuncId, args: &[u64], results: &[u64]) -> Statement {
    Statement::Invocation(Invocation {
        libfunc_id: id,
        args: args.to_vec(),
        branches: vec![BranchInfo { target: BranchTarget::Fallthrough, results: results.to_vec() }],
    })
}

fn store_temp(var: u64, var_on_stack: u64) -> Statement {
    primitive(LibfuncId::StoreTemp(FELT), &[var], &[var_on_stack])
}

fn store_local(slot: u64, var: u64) -> Statement {
    primitive(LibfuncId::StoreLocal(FELT), &[slot, var], &[var])
}

fn dup(var: u64, dup_var: u64) -> Statement {
    primitive(LibfuncId::Dup(FELT), &[var], &[var, dup_var])
}

fn rename(src: u64, dst: u64) -> Statement {
    primitive(LibfuncId::Rename(FELT), &[src], &[dst])
}

fn push(var: u64, var_on_stack: u64, dup: bool) -> PushValue {
    PushValue { var, var_on_stack, ty: FELT, dup }
}

fn strict() -> ParamSignature {
    ParamSignature { allow_deferred: false, allow_add_const: false, allow_const: false }
}

fn lenient() -> ParamSignature {
    ParamSignature { allow_deferred: true, allow_add_const: true, allow_const: true }
}

fn out(kind: OutputKind) -> OutputVarInfo {
    OutputVarInfo { ty: FELT, kind }
}

fn info(params: Vec<ParamSignature>, branches: Vec<(Vec<OutputKind>, ApChange)>) -> LibfuncInfo {
    LibfuncInfo {
        signature: LibfuncSignature {
            param_signatures: params,
            branch_signatures: branches
                .into_iter()
                .map(|(kinds, ap_change)| BranchSignature {
                    vars: kinds.into_iter().map(out).collect(),
                    ap_change,
                })
                .collect(),
        },
    }
}

const ADD_DEFERRED: u64 = 1;
const CONSUME_STRICT: u64 = 2;
const CONST7: u64 = 3;
const ACCEPT_CONST: u64 = 4;
const UNKNOWN_AP: u64 = 5;
const NEW_TEMP: u64 = 6;
const BRANCH_TEMP_OR_LOCAL: u64 = 7;
const USE_ONE: u64 = 8;
const IS_ZERO: u64 = 9;
const JUMP: u64 = 10;
const IDENTITY: u64 = 11;

fn signatures(id: LibfuncId) -> LibfuncInfo {
    let deferred = |kind| OutputKind::Deferred { kind };
    match id {
        LibfuncId::StoreTemp(_) => {
            info(vec![lenient()], vec![(vec![OutputKind::NewTempVar { slot: 0 }], ApChange::Known(1))])
        }
        LibfuncId::StoreLocal(_) => info(
            vec![lenient(), lenient()],
            vec![(vec![OutputKind::NewLocalVar], ApChange::Known(0))],
        ),
        LibfuncId::Dup(_) => info(
            vec![lenient()],
            vec![(
                vec![
                    OutputKind::SameAsParam { param_idx: 0 },
                    OutputKind::SameAsParam { param_idx: 0 },
                ],
                ApChange::Known(0),
            )],
        ),
        LibfuncId::Rename(_) => info(
            vec![lenient()],
            vec![(vec![OutputKind::SameAsParam { param_idx: 0 }], ApChange::Known(0))],
        ),
        LibfuncId::Other(ADD_DEFERRED) => info(
            vec![strict(), strict()],
            vec![(vec![deferred(DeferredVariableKind::Generic)], ApChange::Known(0))],
        ),
        LibfuncId::Other(CONSUME_STRICT) => {
            info(vec![strict()], vec![(vec![OutputKind::NewTempVar { slot: 0 }], ApChange::Known(1))])
        }
        LibfuncId::Other(CONST7) => {
            info(vec![], vec![(vec![deferred(DeferredVariableKind::Const)], ApChange::Known(0))])
        }
        LibfuncId::Other(ACCEPT_CONST) => info(
            vec![ParamSignature { allow_deferred: false, allow_add_const: false, allow_const: true }],
            vec![(vec![OutputKind::NewTempVar { slot: 0 }], ApChange::Known(1))],
        ),
        LibfuncId::Other(UNKNOWN_AP) => info(vec![], vec![(vec![], ApChange::Unknown)]),
        LibfuncId::Other(NEW_TEMP) => {
            info(vec![], vec![(vec![OutputKind::NewTempVar { slot: 0 }], ApChange::Known(1))])
        }
        LibfuncId::Other(BRANCH_TEMP_OR_LOCAL) => info(
            vec![],
            vec![
                (vec![OutputKind::NewTempVar { slot: 0 }], ApChange::Known(1)),
                (vec![OutputKind::NewLocalVar], ApChange::Known(0)),
            ],
        ),
        LibfuncId::Other(USE_ONE) => info(vec![lenient()], vec![(vec![], ApChange::Known(0))]),
        LibfuncId::Other(IS_ZERO) => info(
            vec![strict()],
            vec![(vec![], ApChange::Known(0)), (vec![], ApChange::Known(0))],
        ),
        LibfuncId::Other(JUMP) => info(vec![], vec![(vec![], ApChange::Known(0))]),
        LibfuncId::Other(IDENTITY) => info(
            vec![lenient()],
            vec![(vec![OutputKind::SameAsParam { param_idx: 0 }], ApChange::Known(0))],
        ),
        LibfuncId::Other(_) => info(vec![], vec![]),
    }
}

fn locals(pairs: &[(u64, u64)]) -> LocalVariables {
    let mut map: OrderedHashMap<u64, u64, RandomState> = OrderedHashMap::default();
    for (var, slot) in pairs {
        map.insert(*var, *slot);
    }
    map
}

fn run(statements: Vec<Statement>, local_pairs: &[(u64, u64)], params: &[u64]) -> Vec<Statement> {
    add_store_statements(statements, &signatures, locals(local_pairs), params)
}

fn try_run(
    statements: Vec<Statement>,
    local_pairs: &[(u64, u64)],
    params: &[u64],
) -> Result<Vec<Statement>, StoreError> {
    try_add_store_statements(statements, &signatures, locals(local_pairs), params)
}

fn branching(id: u64, args: &[u64], branches: &[(BranchTarget, &[u64])]) -> Statement {
    Statement::Invocation(Invocation {
        libfunc_id: LibfuncId::Other(id),
        args: args.to_vec(),
        branches: branches
            .iter()
            .map(|(target, results)| BranchInfo { target: *target, results: results.to_vec() })
            .collect(),
    })
}

fn is_added(statement: &Statement) -> bool {
    match statement {
        Statement::Invocation(invocation) => !matches!(invocation.libfunc_id, LibfuncId::Other(_)),
        _ => false,
    }
}

fn without_pushes(statements: &[Statement]) -> Vec<Statement> {
    statements.iter().filter(|s| !matches!(s, Statement::PushValues(_))).cloned().collect()
}

fn without_added(statements: &[Statement]) -> Vec<Statement> {
    statements.iter().filter(|s| !is_added(s)).cloned().collect()
}

/// A body that uses every kind of statement: deferred values, a local
/// variable, a branch with a label, and pushes before the returns.
fn sample() -> (Vec<Statement>, Vec<(u64, u64)>, Vec<u64>) {
    let statements = vec![
        call(ADD_DEFERRED, &[0, 1], &[2]),
        call(NEW_TEMP, &[], &[3]),
        call(CONST7, &[], &[4]),
        branching(
            IS_ZERO,
            &[2],
            &[(BranchTarget::Fallthrough, &[]), (BranchTarget::Statement(1), &[])],
        ),
        Statement::PushValues(vec![push(3, 10, false), push(4, 11, false)]),
        Statement::Return(vec![10, 11]),
        Statement::Label(1),
        Statement::PushValues(vec![push(4, 12, true), push(3, 13, false)]),
        Statement::Return(vec![12, 13]),
    ];
    (statements, vec![(3, 100)], vec![0, 1, 100])
}

#[test]
fn sample_body_gets_its_stores() {
    let (statements, local_pairs, params) = sample();
    let expected = vec![
        call(ADD_DEFERRED, &[0, 1], &[2]),
        call(NEW_TEMP, &[], &[3]),
        call(CONST7, &[], &[4]),
        // The argument of the branch is stored for its strict parameter.
        store_temp(2, 2),
        // The local variable is copied to the frame before the branch.
        store_local(100, 3),
        branching(
            IS_ZERO,
            &[2],
            &[(BranchTarget::Fallthrough, &[]), (BranchTarget::Statement(1), &[])],
        ),
        store_temp(3, 10),
        store_temp(4, 11),
        Statement::Return(vec![10, 11]),
        Statement::Label(1),
        dup(4, 12),
        store_temp(12, 12),
        store_temp(3, 13),
        Statement::Return(vec![12, 13]),
    ];
    assert_eq!(run(statements, &local_pairs, &params), expected);
}

#[test]
fn striking_what_was_added_leaves_the_input() {
    let (statements, local_pairs, params) = sample();
    let output = run(statements.clone(), &local_pairs, &params);
    assert_eq!(without_added(&output), without_pushes(&statements));
    assert!(output.iter().all(|s| !matches!(s, Statement::PushValues(_))));
}

#[test]
fn same_input_gives_same_output() {
    let (statements, local_pairs, params) = sample();
    let first = run(statements.clone(), &local_pairs, &params);
    let second = run(statements, &local_pairs, &params);
    assert_eq!(first, second);
}

#[test]
fn return_is_followed_by_a_label_or_nothing() {
    let (statements, local_pairs, params) = sample();
    let output = run(statements, &local_pairs, &params);
    for (i, statement) in output.iter().enumerate() {
        if matches!(statement, Statement::Return(_)) && i + 1 < output.len() {
            assert!(matches!(output[i + 1], Statement::Label(_)));
        }
    }
}

#[test]
fn statement_after_return_is_unreachable() {
    let statements = vec![Statement::Return(vec![]), call(NEW_TEMP, &[], &[0])];
    assert_eq!(try_run(statements, &[], &[]), Err(StoreError::UnreachableStatement));
    let statements = vec![Statement::Return(vec![]), Statement::Return(vec![])];
    assert_eq!(try_run(statements, &[], &[]), Err(StoreError::UnreachableStatement));
    let statements =
        vec![Statement::Return(vec![]), Statement::PushValues(vec![push(0, 1, false)])];
    assert_eq!(try_run(statements, &[], &[0]), Err(StoreError::UnreachableStatement));
}

#[test]
fn empty_push_is_dropped_even_where_unreachable() {
    let statements = vec![
        Statement::PushValues(vec![]),
        Statement::Return(vec![]),
        Statement::PushValues(vec![]),
    ];
    assert_eq!(run(statements, &[], &[]), vec![Statement::Return(vec![])]);
}

#[test]
fn second_run_on_a_fixed_point_changes_nothing() {
    let input = vec![
        call(ADD_DEFERRED, &[0, 1], &[2]),
        call(CONSUME_STRICT, &[2], &[3]),
        Statement::PushValues(vec![push(3, 4, false)]),
        Statement::Return(vec![4]),
    ];
    let output = run(input, &[], &[0, 1]);
    assert_eq!(run(output.clone(), &[], &[0, 1]), output);
}

#[test]
fn second_run_stores_a_local_again() {
    let input = vec![
        call(NEW_TEMP, &[], &[0]),
        call(USE_ONE, &[0], &[]),
        Statement::Return(vec![]),
    ];
    let output = run(input, &[(0, 100)], &[100]);
    assert_eq!(
        output,
        vec![
            call(NEW_TEMP, &[], &[0]),
            store_local(100, 0),
            call(USE_ONE, &[0], &[]),
            Statement::Return(vec![]),
        ]
    );
    let again = run(output, &[(0, 100)], &[100]);
    assert_eq!(
        again,
        vec![
            call(NEW_TEMP, &[], &[0]),
            store_local(100, 0),
            store_local(100, 0),
            call(USE_ONE, &[0], &[]),
            Statement::Return(vec![]),
        ]
    );
}

#[test]
fn reachable_end_is_reported() {
    let statements = vec![call(NEW_TEMP, &[], &[0])];
    assert_eq!(try_run(statements, &[], &[]), Err(StoreError::ReachableEnd));
    assert_eq!(try_run(vec![], &[], &[]), Err(StoreError::ReachableEnd));
}

#[test]
fn unhandled_label_is_reported() {
    let statements = vec![branching(JUMP, &[], &[(BranchTarget::Statement(9), &[])])];
    assert_eq!(try_run(statements, &[], &[]), Err(StoreError::UnhandledLabel));
}

#[test]
fn jump_to_a_label_carries_the_state() {
    let statements = vec![
        call(NEW_TEMP, &[], &[0]),
        branching(JUMP, &[], &[(BranchTarget::Statement(9), &[])]),
        Statement::Label(9),
        call(USE_ONE, &[0], &[]),
        Statement::Return(vec![]),
    ];
    assert_eq!(run(statements.clone(), &[], &[]), statements);
}

#[test]
fn unknown_variable_is_reported() {
    let statements = vec![call(USE_ONE, &[5], &[]), Statement::Return(vec![])];
    assert_eq!(try_run(statements, &[], &[]), Err(StoreError::UnknownVariable(5)));
    let statements = vec![Statement::PushValues(vec![push(5, 6, false)])];
    assert_eq!(try_run(statements, &[], &[]), Err(StoreError::UnknownVariable(5)));
}

#[test]
fn argument_is_consumed() {
    let statements = vec![
        call(USE_ONE, &[0], &[]),
        call(USE_ONE, &[0], &[]),
        Statement::Return(vec![]),
    ];
    assert_eq!(try_run(statements, &[], &[0]), Err(StoreError::UnknownVariable(0)));
}

#[test]
fn signature_that_does_not_fit_is_reported() {
    // One argument too many.
    let statements = vec![call(USE_ONE, &[0, 1], &[]), Statement::Return(vec![])];
    assert_eq!(try_run(statements, &[], &[0, 1]), Err(StoreError::SignatureMismatch));
    // One result too many.
    let statements = vec![call(NEW_TEMP, &[], &[0, 1]), Statement::Return(vec![])];
    assert_eq!(try_run(statements, &[], &[]), Err(StoreError::SignatureMismatch));
    // One branch too few.
    let statements = vec![
        branching(IS_ZERO, &[0], &[(BranchTarget::Statement(1), &[])]),
        Statement::Label(1),
        Statement::Return(vec![]),
    ];
    assert_eq!(try_run(statements, &[], &[0]), Err(StoreError::SignatureMismatch));
    // No signature for the only branch.
    let statements = vec![call(99, &[], &[]), Statement::Return(vec![])];
    assert_eq!(try_run(statements, &[], &[]), Err(StoreError::SignatureMismatch));
}

#[test]
fn result_takes_the_placement_of_its_argument() {
    let statements = vec![
        call(ADD_DEFERRED, &[0, 1], &[2]),
        call(IDENTITY, &[2], &[3]),
        call(CONSUME_STRICT, &[3], &[4]),
        call(USE_ONE, &[4], &[]),
        Statement::Return(vec![]),
    ];
    let expected = vec![
        call(ADD_DEFERRED, &[0, 1], &[2]),
        call(IDENTITY, &[2], &[3]),
        store_temp(3, 3),
        call(CONSUME_STRICT, &[3], &[4]),
        call(USE_ONE, &[4], &[]),
        Statement::Return(vec![]),
    ];
    assert_eq!(run(statements, &[], &[0, 1]), expected);
}

#[test]
fn deferred_local_is_stored_in_the_frame_even_for_a_lenient_parameter() {
    let statements = vec![
        call(ADD_DEFERRED, &[0, 1], &[2]),
        call(IDENTITY, &[2], &[3]),
        call(USE_ONE, &[3], &[]),
        Statement::Return(vec![]),
    ];
    let expected = vec![
        call(ADD_DEFERRED, &[0, 1], &[2]),
        store_local(100, 2),
        call(IDENTITY, &[2], &[3]),
        call(USE_ONE, &[3], &[]),
        Statement::Return(vec![]),
    ];
    assert_eq!(run(statements, &[(2, 100)], &[0, 1, 100]), expected);
}

#[test]
fn const_is_stored_for_a_parameter_that_does_not_take_it() {
    let statements = vec![
        call(CONST7, &[], &[0]),
        call(CONSUME_STRICT, &[0], &[1]),
        call(USE_ONE, &[1], &[]),
        Statement::Return(vec![]),
    ];
    let expected = vec![
        call(CONST7, &[], &[0]),
        store_temp(0, 0),
        call(CONSUME_STRICT, &[0], &[1]),
        call(USE_ONE, &[1], &[]),
        Statement::Return(vec![]),
    ];
    assert_eq!(run(statements, &[], &[]), expected);
}

#[test]
fn locals_are_stored_in_insertion_order_before_unknown_ap_change() {
    let statements = vec![
        call(NEW_TEMP, &[], &[0]),
        call(ADD_DEFERRED, &[10, 11], &[1]),
        call(NEW_TEMP, &[], &[2]),
        call(UNKNOWN_AP, &[], &[]),
        call(USE_ONE, &[0], &[]),
        call(USE_ONE, &[1], &[]),
        call(USE_ONE, &[2], &[]),
        Statement::Return(vec![]),
    ];
    let expected = vec![
        call(NEW_TEMP, &[], &[0]),
        call(ADD_DEFERRED, &[10, 11], &[1]),
        call(NEW_TEMP, &[], &[2]),
        store_local(100, 0),
        store_local(101, 1),
        call(UNKNOWN_AP, &[], &[]),
        call(USE_ONE, &[0], &[]),
        call(USE_ONE, &[1], &[]),
        // Not marked local: still a temporary as far as placement knows.
        call(USE_ONE, &[2], &[]),
        Statement::Return(vec![]),
    ];
    assert_eq!(run(statements, &[(1, 101), (0, 100)], &[10, 11, 100, 101]), expected);
}

#[test]
fn unknown_ap_change_forgets_the_stack() {
    let statements = vec![
        call(NEW_TEMP, &[], &[0]),
        call(UNKNOWN_AP, &[], &[]),
        Statement::PushValues(vec![push(0, 10, false)]),
        Statement::Return(vec![10]),
    ];
    let expected = vec![
        call(NEW_TEMP, &[], &[0]),
        call(UNKNOWN_AP, &[], &[]),
        store_temp(0, 10),
        Statement::Return(vec![10]),
    ];
    assert_eq!(run(statements, &[], &[]), expected);
}

#[test]
fn branch_forgets_the_stack_and_stores_deferred_values() {
    let statements = vec![
        call(NEW_TEMP, &[], &[0]),
        call(ADD_DEFERRED, &[10, 11], &[1]),
        call(CONST7, &[], &[2]),
        call(NEW_TEMP, &[], &[3]),
        branching(
            IS_ZERO,
            &[3],
            &[(BranchTarget::Fallthrough, &[]), (BranchTarget::Statement(1), &[])],
        ),
        Statement::PushValues(vec![push(0, 20, false)]),
        Statement::Return(vec![20]),
        Statement::Label(1),
        call(USE_ONE, &[1], &[]),
        call(USE_ONE, &[2], &[]),
        Statement::Return(vec![]),
    ];
    let expected = vec![
        call(NEW_TEMP, &[], &[0]),
        call(ADD_DEFERRED, &[10, 11], &[1]),
        call(CONST7, &[], &[2]),
        call(NEW_TEMP, &[], &[3]),
        // The deferred value is stored before the branch; the literal is not.
        store_temp(1, 1),
        branching(
            IS_ZERO,
            &[3],
            &[(BranchTarget::Fallthrough, &[]), (BranchTarget::Statement(1), &[])],
        ),
        store_temp(0, 20),
        Statement::Return(vec![20]),
        Statement::Label(1),
        call(USE_ONE, &[1], &[]),
        call(USE_ONE, &[2], &[]),
        Statement::Return(vec![]),
    ];
    assert_eq!(run(statements, &[], &[10, 11]), expected);
}

#[test]
fn push_of_a_const_stores_it_anew() {
    let statements = vec![
        call(CONST7, &[], &[0]),
        Statement::PushValues(vec![push(0, 10, true), push(0, 11, false)]),
        Statement::Return(vec![10, 11]),
    ];
    let expected = vec![
        call(CONST7, &[], &[0]),
        dup(0, 10),
        store_temp(10, 10),
        store_temp(0, 11),
        Statement::Return(vec![10, 11]),
    ];
    assert_eq!(run(statements, &[], &[]), expected);
}

#[test]
fn push_of_a_deferred_value_stores_it_under_the_new_name() {
    let statements = vec![
        call(ADD_DEFERRED, &[0, 1], &[2]),
        Statement::PushValues(vec![push(2, 10, false)]),
        Statement::Return(vec![10]),
    ];
    let expected = vec![
        call(ADD_DEFERRED, &[0, 1], &[2]),
        store_temp(2, 10),
        Statement::Return(vec![10]),
    ];
    assert_eq!(run(statements, &[], &[0, 1]), expected);
}

#[test]
fn push_of_a_deferred_value_that_stays_live_dups_it_back() {
    let statements = vec![
        call(ADD_DEFERRED, &[0, 1], &[2]),
        Statement::PushValues(vec![push(2, 10, true)]),
        call(CONSUME_STRICT, &[2], &[3]),
        call(USE_ONE, &[3], &[]),
        Statement::Return(vec![10]),
    ];
    let expected = vec![
        call(ADD_DEFERRED, &[0, 1], &[2]),
        store_temp(2, 10),
        dup(10, 2),
        call(CONSUME_STRICT, &[2], &[3]),
        call(USE_ONE, &[3], &[]),
        Statement::Return(vec![10]),
    ];
    assert_eq!(run(statements, &[], &[0, 1]), expected);
}

#[test]
fn push_of_a_deferred_local_stores_it_twice() {
    let statements = vec![
        call(ADD_DEFERRED, &[0, 1], &[2]),
        Statement::PushValues(vec![push(2, 10, true)]),
        call(USE_ONE, &[2], &[]),
        Statement::Return(vec![10]),
    ];
    let expected = vec![
        call(ADD_DEFERRED, &[0, 1], &[2]),
        store_local(100, 2),
        dup(2, 10),
        store_temp(10, 10),
        call(USE_ONE, &[2], &[]),
        Statement::Return(vec![10]),
    ];
    assert_eq!(run(statements, &[(2, 100)], &[0, 1, 100]), expected);
}

#[test]
fn push_of_a_parameter_stores_it() {
    let statements = vec![
        Statement::PushValues(vec![push(0, 10, false), push(1, 11, true)]),
        call(USE_ONE, &[1], &[]),
        Statement::Return(vec![10, 11]),
    ];
    let expected = vec![
        store_temp(0, 10),
        dup(1, 11),
        store_temp(11, 11),
        call(USE_ONE, &[1], &[]),
        Statement::Return(vec![10, 11]),
    ];
    assert_eq!(run(statements, &[], &[0, 1]), expected);
}

#[test]
fn push_renames_the_whole_prefix_on_the_stack() {
    let statements = vec![
        call(NEW_TEMP, &[], &[0]),
        call(NEW_TEMP, &[], &[1]),
        Statement::PushValues(vec![push(0, 10, false), push(1, 11, false), push(2, 12, false)]),
        Statement::Return(vec![10, 11, 12]),
    ];
    let expected = vec![
        call(NEW_TEMP, &[], &[0]),
        call(NEW_TEMP, &[], &[1]),
        rename(0, 10),
        rename(1, 11),
        store_temp(2, 12),
        Statement::Return(vec![10, 11, 12]),
    ];
    assert_eq!(run(statements, &[], &[2]), expected);
}

#[test]
fn push_stores_what_is_on_the_stack_in_another_order() {
    let statements = vec![
        call(NEW_TEMP, &[], &[0]),
        call(NEW_TEMP, &[], &[1]),
        Statement::PushValues(vec![push(1, 11, false), push(0, 10, false)]),
        Statement::Return(vec![11, 10]),
    ];
    let expected = vec![
        call(NEW_TEMP, &[], &[0]),
        call(NEW_TEMP, &[], &[1]),
        // `1` is the top of the stack, so a prefix of length one lies there.
        rename(1, 11),
        store_temp(0, 10),
        Statement::Return(vec![11, 10]),
    ];
    assert_eq!(run(statements, &[], &[]), expected);
}

#[test]
fn push_stores_what_lies_below_the_top() {
    let statements = vec![
        call(NEW_TEMP, &[], &[0]),
        call(NEW_TEMP, &[], &[1]),
        Statement::PushValues(vec![push(0, 10, false)]),
        Statement::Return(vec![10]),
    ];
    let expected = vec![
        call(NEW_TEMP, &[], &[0]),
        call(NEW_TEMP, &[], &[1]),
        store_temp(0, 10),
        Statement::Return(vec![10]),
    ];
    assert_eq!(run(statements, &[], &[]), expected);
}

#[test]
fn join_keeps_what_both_sides_agree_on() {
    let statements = vec![
        call(NEW_TEMP, &[], &[0]),
        branching(
            IS_ZERO,
            &[9],
            &[(BranchTarget::Fallthrough, &[]), (BranchTarget::Statement(1), &[])],
        ),
        branching(JUMP, &[], &[(BranchTarget::Statement(2), &[])]),
        Statement::Label(1),
        Statement::Label(2),
        call(USE_ONE, &[0], &[]),
        Statement::Return(vec![]),
    ];
    assert_eq!(run(statements.clone(), &[], &[9]), statements);
}

#[test]
fn join_drops_what_one_side_has_consumed() {
    let statements = vec![
        call(NEW_TEMP, &[], &[0]),
        branching(
            IS_ZERO,
            &[9],
            &[(BranchTarget::Fallthrough, &[]), (BranchTarget::Statement(1), &[])],
        ),
        call(USE_ONE, &[0], &[]),
        Statement::Label(1),
        call(USE_ONE, &[0], &[]),
        Statement::Return(vec![]),
    ];
    assert_eq!(try_run(statements, &[], &[9]), Err(StoreError::UnknownVariable(0)));
}

#[test]
fn consumed_variable_gives_its_place_to_the_last() {
    let statements = vec![
        call(NEW_TEMP, &[], &[0]),
        call(NEW_TEMP, &[], &[1]),
        call(NEW_TEMP, &[], &[2]),
        call(USE_ONE, &[0], &[]),
        call(UNKNOWN_AP, &[], &[]),
        call(USE_ONE, &[1], &[]),
        call(USE_ONE, &[2], &[]),
        Statement::Return(vec![]),
    ];
    let expected = vec![
        call(NEW_TEMP, &[], &[0]),
        call(NEW_TEMP, &[], &[1]),
        call(NEW_TEMP, &[], &[2]),
        call(USE_ONE, &[0], &[]),
        // `2` stands where `0` stood, before `1`.
        store_local(102, 2),
        store_local(101, 1),
        call(UNKNOWN_AP, &[], &[]),
        call(USE_ONE, &[1], &[]),
        call(USE_ONE, &[2], &[]),
        Statement::Return(vec![]),
    ];
    assert_eq!(run(statements, &[(1, 101), (2, 102)], &[101, 102]), expected);
}

#[test]
fn redefined_variable_keeps_its_place() {
    let statements = vec![
        call(NEW_TEMP, &[], &[0]),
        call(NEW_TEMP, &[], &[1]),
        call(NEW_TEMP, &[], &[0]),
        call(UNKNOWN_AP, &[], &[]),
        call(USE_ONE, &[0], &[]),
        call(USE_ONE, &[1], &[]),
        Statement::Return(vec![]),
    ];
    let expected = vec![
        call(NEW_TEMP, &[], &[0]),
        call(NEW_TEMP, &[], &[1]),
        call(NEW_TEMP, &[], &[0]),
        store_local(100, 0),
        store_local(101, 1),
        call(UNKNOWN_AP, &[], &[]),
        call(USE_ONE, &[0], &[]),
        call(USE_ONE, &[1], &[]),
        Statement::Return(vec![]),
    ];
    assert_eq!(run(statements, &[(1, 101), (0, 100)], &[100, 101]), expected);
}
