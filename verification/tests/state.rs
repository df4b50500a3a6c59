use store_variables::program::PushValue;
use store_variables::signature::{
    ApChange, BranchSignature, DeferredVariableKind, OutputKind, OutputVarInfo,
};
use store_variables::state::{merge_optional_states, DeferredVariableInfo, State, VarState};
use store_variables::StoreError;

fn placements(state: &State) -> Vec<(u64, VarState)> {
    state.variables.iter().map(|(var, placement)| (*var, *placement)).collect()
}

fn branch(kinds: &[OutputKind], ap_change: ApChange) -> BranchSignature {
    BranchSignature {
        vars: kinds.iter().map(|kind| OutputVarInfo { ty: 7, kind: *kind }).collect(),
        ap_change,
    }
}

fn top(var: u64) -> Vec<PushValue> {
    vec![PushValue { var, var_on_stack: var + 100, ty: 7, dup: false }]
}

const TEMP: VarState = VarState::TempVar { ty: 7 };

fn deferred(kind: DeferredVariableKind) -> VarState {
    VarState::Deferred { info: DeferredVariableInfo { ty: 7, kind } }
}

#[test]
fn parameters_start_in_the_frame() {
    let state = State::at_entry(&[3, 1, 2]);
    assert_eq!(
        placements(&state),
        vec![(3, VarState::LocalVar), (1, VarState::LocalVar), (2, VarState::LocalVar)]
    );
    assert_eq!(state.known_stack.get(3), None);
    assert_eq!(placements(&State::new()), vec![]);
}

#[test]
fn outputs_are_registered_by_kind() {
    let mut state = State::at_entry(&[1]);
    let signature = branch(
        &[
            OutputKind::NewTempVar { slot: 0 },
            OutputKind::NewLocalVar,
            OutputKind::Deferred { kind: DeferredVariableKind::AddConst },
            OutputKind::SameAsParam { param_idx: 1 },
            OutputKind::NewTempVar { slot: 1 },
        ],
        ApChange::Known(2),
    );
    let arg_states = vec![VarState::LocalVar, deferred(DeferredVariableKind::Const)];
    let result = state.register_outputs(&vec![10, 11, 12, 13, 14], &signature, &vec![1, 2], &arg_states);
    assert_eq!(result, Ok(()));
    assert_eq!(
        placements(&state),
        vec![
            (1, VarState::LocalVar),
            (10, TEMP),
            (11, VarState::LocalVar),
            (12, deferred(DeferredVariableKind::AddConst)),
            (13, deferred(DeferredVariableKind::Const)),
            (14, TEMP),
        ]
    );
    assert_eq!(state.known_stack.get(10), Some(0));
    assert_eq!(state.known_stack.get(14), Some(1));
    assert_eq!(state.known_stack.get(11), None);
    assert_eq!(state.known_stack.compute_on_stack_prefix_size(&top(14)), 1);
}

#[test]
fn unknown_ap_change_clears_the_stack_before_the_outputs() {
    let mut state = State::new();
    let push_one = branch(&[OutputKind::NewTempVar { slot: 0 }], ApChange::Known(1));
    assert_eq!(state.register_outputs(&vec![1], &push_one, &vec![], &vec![]), Ok(()));
    assert_eq!(state.register_outputs(&vec![2], &push_one, &vec![], &vec![]), Ok(()));
    assert_eq!(state.known_stack.get(1), Some(0));
    assert_eq!(state.known_stack.get(2), Some(1));
    let align = branch(&[], ApChange::BranchAlign);
    assert_eq!(state.register_outputs(&vec![], &align, &vec![], &vec![]), Ok(()));
    assert_eq!(state.known_stack.get(2), Some(1));
    let unknown = branch(&[OutputKind::NewTempVar { slot: 0 }], ApChange::Unknown);
    assert_eq!(state.register_outputs(&vec![3], &unknown, &vec![], &vec![]), Ok(()));
    assert_eq!(state.known_stack.get(1), None);
    assert_eq!(state.known_stack.get(2), None);
    assert_eq!(state.known_stack.get(3), Some(0));
    assert_eq!(placements(&state), vec![(1, TEMP), (2, TEMP), (3, TEMP)]);
}

#[test]
fn result_of_the_same_name_leaves_its_old_cell() {
    let mut state = State::new();
    let push_one = branch(&[OutputKind::NewTempVar { slot: 0 }], ApChange::Known(1));
    assert_eq!(state.register_outputs(&vec![1], &push_one, &vec![], &vec![]), Ok(()));
    let local = branch(&[OutputKind::NewLocalVar], ApChange::Known(0));
    assert_eq!(state.register_outputs(&vec![1], &local, &vec![], &vec![]), Ok(()));
    assert_eq!(state.known_stack.get(1), None);
    assert_eq!(placements(&state), vec![(1, VarState::LocalVar)]);
}

#[test]
fn same_as_param_takes_the_cell_of_the_argument() {
    let mut state = State::new();
    let push_one = branch(&[OutputKind::NewTempVar { slot: 0 }], ApChange::Known(1));
    assert_eq!(state.register_outputs(&vec![1], &push_one, &vec![], &vec![]), Ok(()));
    let same = branch(&[OutputKind::SameAsParam { param_idx: 0 }], ApChange::Known(0));
    assert_eq!(state.register_outputs(&vec![2], &same, &vec![1], &vec![TEMP]), Ok(()));
    assert_eq!(state.known_stack.get(2), Some(0));
    assert_eq!(state.known_stack.compute_on_stack_prefix_size(&top(2)), 1);
}

#[test]
fn outputs_that_do_not_fit_are_refused() {
    let mut state = State::new();
    let one = branch(&[OutputKind::NewLocalVar], ApChange::Known(0));
    assert_eq!(
        state.register_outputs(&vec![1, 2], &one, &vec![], &vec![]),
        Err(StoreError::SignatureMismatch)
    );
    assert_eq!(
        state.register_outputs(&vec![], &one, &vec![], &vec![]),
        Err(StoreError::SignatureMismatch)
    );
    let same = branch(&[OutputKind::SameAsParam { param_idx: 1 }], ApChange::Known(0));
    assert_eq!(
        state.register_outputs(&vec![1], &same, &vec![5], &vec![TEMP]),
        Err(StoreError::SignatureMismatch)
    );
}

#[test]
fn rename_gives_the_placement_and_the_cell() {
    let mut state = State::at_entry(&[1]);
    let push_one = branch(&[OutputKind::NewTempVar { slot: 0 }], ApChange::Known(1));
    assert_eq!(state.register_outputs(&vec![2], &push_one, &vec![], &vec![]), Ok(()));
    state.rename_var(2, 3);
    state.rename_var(1, 4);
    state.rename_var(9, 5);
    assert_eq!(
        placements(&state),
        vec![(1, VarState::LocalVar), (2, TEMP), (3, TEMP), (4, VarState::LocalVar)]
    );
    assert_eq!(state.known_stack.get(3), Some(0));
    assert_eq!(state.known_stack.get(4), None);
}

#[test]
fn duplicate_of_a_state_is_independent() {
    let first = State::at_entry(&[1]);
    let mut copy = first.duplicate();
    copy.rename_var(1, 2);
    assert_eq!(placements(&copy), vec![(1, VarState::LocalVar), (2, VarState::LocalVar)]);
    assert_eq!(placements(&first), vec![(1, VarState::LocalVar)]);
}

#[test]
fn merge_keeps_equal_placements_in_the_order_of_the_first() {
    let mut a = State::at_entry(&[1, 2, 3]);
    let mut b = State::at_entry(&[3, 1]);
    let push_one = branch(&[OutputKind::NewTempVar { slot: 0 }], ApChange::Known(1));
    let local = branch(&[OutputKind::NewLocalVar], ApChange::Known(0));
    let other_type = BranchSignature {
        vars: vec![OutputVarInfo { ty: 8, kind: OutputKind::NewTempVar { slot: 0 } }],
        ap_change: ApChange::Known(1),
    };
    // 4: temporary on both sides; 5: temporary or local; 6: two types.
    assert_eq!(a.register_outputs(&vec![4], &push_one, &vec![], &vec![]), Ok(()));
    assert_eq!(b.register_outputs(&vec![4], &push_one, &vec![], &vec![]), Ok(()));
    assert_eq!(a.register_outputs(&vec![5], &push_one, &vec![], &vec![]), Ok(()));
    assert_eq!(b.register_outputs(&vec![5], &local, &vec![], &vec![]), Ok(()));
    assert_eq!(a.register_outputs(&vec![6], &push_one, &vec![], &vec![]), Ok(()));
    assert_eq!(b.register_outputs(&vec![6], &other_type, &vec![], &vec![]), Ok(()));
    let merged = State::merge(a, b);
    assert_eq!(placements(&merged), vec![(1, VarState::LocalVar), (3, VarState::LocalVar), (4, TEMP)]);
    // `6` is the top of both stacks; `4` lies at another depth on each side.
    assert_eq!(merged.known_stack.get(6), Some(2));
    assert_eq!(merged.known_stack.get(4), None);
}

#[test]
fn merge_of_optional_states() {
    assert!(merge_optional_states(None, None).is_none());
    let merged = merge_optional_states(Some(State::at_entry(&[1])), None).unwrap();
    assert_eq!(placements(&merged), vec![(1, VarState::LocalVar)]);
    let merged = merge_optional_states(None, Some(State::at_entry(&[2]))).unwrap();
    assert_eq!(placements(&merged), vec![(2, VarState::LocalVar)]);
    let merged =
        merge_optional_states(Some(State::at_entry(&[1, 2])), Some(State::at_entry(&[2, 3])))
            .unwrap();
    assert_eq!(placements(&merged), vec![(2, VarState::LocalVar)]);
}
