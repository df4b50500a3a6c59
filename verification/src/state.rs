//! The placement of each live variable at one point of the program.

use vstd::prelude::*;
use crate::collections::{
    variable_entries, variables_clone, variables_get, variables_insert, variables_new,
    variables_to_vec, VariableMap,
};
use crate::error::StoreError;
use crate::known_stack::{KnownStack, KnownStackView};
use crate::ordered_map::{distinct_keys, has_key, inserted, lemma_inserted, lookup};
use crate::program::{TypeId, VarId};
use crate::signature::{
    ApChange, BranchSignature, BranchSignatureView, DeferredVariableKind, OutputKind,
    OutputVarInfo,
};

verus! {

/// Type and form of a deferred value.
#[derive(Clone, Copy, Debug, PartialEq, Eq, Hash, Structural)]
pub struct DeferredVariableInfo {
    pub ty: TypeId,
    pub kind: DeferredVariableKind,
}

/// Where the value of a variable is.
#[derive(Clone, Copy, Debug, PartialEq, Eq, Hash, Structural)]
pub enum VarState {
    /// In a cell of the stack.
    TempVar { ty: TypeId },
    /// Not written to any cell yet.
    Deferred { info: DeferredVariableInfo },
    /// In a cell of the frame.
    LocalVar,
}

/// Mathematical view of a [`State`].
pub struct StateView {
    /// The live variables with their placements, in iteration order.
    pub variables: Seq<(VarId, VarState)>,
    pub known_stack: KnownStackView,
}

/// The placements of the live variables, and what is known of the stack.
/// A variable that is not a key of `variables` is not live.
#[derive(Debug)]
pub struct State {
    pub variables: VariableMap,
    pub known_stack: KnownStack,
}

impl View for State {
    type V = StateView;

    open spec fn view(&self) -> StateView {
        StateView {
            variables: variable_entries(self.variables),
            known_stack: self.known_stack@,
        }
    }
}

impl StateView {
    /// No variable has two placements, and the stack is well formed.
    pub open spec fn wf(self) -> bool {
        &&& distinct_keys(self.variables)
        &&& self.known_stack.wf()
    }

    /// The state in which no variable is live and nothing is known of the stack.
    pub open spec fn empty() -> StateView {
        StateView { variables: Seq::empty(), known_stack: KnownStackView::empty() }
    }

    /// The placement of `var`, if it is live.
    pub open spec fn placement(self, var: VarId) -> Option<VarState> {
        lookup(self.variables, var)
    }

    /// The state after `var` gets the placement `state`.
    pub open spec fn insert(self, var: VarId, state: VarState) -> StateView {
        StateView { variables: inserted(self.variables, var, state), ..self }
    }

    /// The state after the parameters from `i` on are made live, each in the frame.
    pub open spec fn with_params_from(self, params: Seq<VarId>, i: int) -> StateView
        decreases params.len() - i,
    {
        if 0 <= i < params.len() {
            self.insert(params[i], VarState::LocalVar).with_params_from(params, i + 1)
        } else {
            self
        }
    }

    /// The state at the entry of a function with the given parameters.
    pub open spec fn at_entry(params: Seq<VarId>) -> StateView {
        Self::empty().with_params_from(params, 0)
    }

    /// The state after nothing is known of the stack any more.
    pub open spec fn clear_known_stack(self) -> StateView {
        StateView { known_stack: KnownStackView::empty(), ..self }
    }

    /// The state after a branch has defined `res` as `info` says. A result of
    /// kind `SameAsParam` takes the placement that the argument had when it
    /// was passed, and its cell where the argument lies on the stack.
    pub open spec fn register_output(
        self,
        res: VarId,
        info: OutputVarInfo,
        args: Seq<VarId>,
        arg_states: Seq<VarState>,
    ) -> Result<StateView, StoreError> {
        let stack = self.known_stack.remove_variable(res);
        match info.kind {
            OutputKind::NewTempVar { .. } => Ok(
                StateView {
                    variables: inserted(self.variables, res, VarState::TempVar { ty: info.ty }),
                    known_stack: stack.push(res),
                },
            ),
            OutputKind::NewLocalVar => Ok(
                StateView {
                    variables: inserted(self.variables, res, VarState::LocalVar),
                    known_stack: stack,
                },
            ),
            OutputKind::Deferred { kind } => Ok(
                StateView {
                    variables: inserted(
                        self.variables,
                        res,
                        VarState::Deferred { info: DeferredVariableInfo { ty: info.ty, kind } },
                    ),
                    known_stack: stack,
                },
            ),
            OutputKind::SameAsParam { param_idx } => if param_idx < args.len() && param_idx
                < arg_states.len() {
                Ok(
                    StateView {
                        variables: inserted(self.variables, res, arg_states[param_idx as int]),
                        known_stack: stack.clone_if_on_stack(args[param_idx as int], res),
                    },
                )
            } else {
                Err(StoreError::SignatureMismatch)
            },
        }
    }

    /// The state after a branch has defined the results from `i` on.
    pub open spec fn register_outputs_from(
        self,
        results: Seq<VarId>,
        vars: Seq<OutputVarInfo>,
        args: Seq<VarId>,
        arg_states: Seq<VarState>,
        i: int,
    ) -> Result<StateView, StoreError>
        decreases results.len() - i,
    {
        if 0 <= i < results.len() {
            match self.register_output(results[i], vars[i], args, arg_states) {
                Ok(next) => next.register_outputs_from(results, vars, args, arg_states, i + 1),
                Err(e) => Err(e),
            }
        } else {
            Ok(self)
        }
    }

    /// The state after a branch with the given signature has defined `results`.
    /// Where the branch moves the stack pointer by an unknown amount, nothing
    /// is known of the stack afterwards but what the branch itself pushes.
    pub open spec fn register_outputs(
        self,
        results: Seq<VarId>,
        branch_signature: BranchSignatureView,
        args: Seq<VarId>,
        arg_states: Seq<VarState>,
    ) -> Result<StateView, StoreError> {
        if results.len() != branch_signature.vars.len() {
            Err(StoreError::SignatureMismatch)
        } else {
            let start = if branch_signature.ap_change is Unknown {
                self.clear_known_stack()
            } else {
                self
            };
            start.register_outputs_from(results, branch_signature.vars, args, arg_states, 0)
        }
    }

    /// The state after `dst` becomes another name of `src`.
    pub open spec fn rename_var(self, src: VarId, dst: VarId) -> StateView {
        StateView {
            variables: match lookup(self.variables, src) {
                Some(state) => inserted(self.variables, dst, state),
                None => self.variables,
            },
            known_stack: self.known_stack.clone_if_on_stack(src, dst),
        }
    }

    /// Whether `other` gives the variable of `entry` the placement that `entry` gives it.
    pub open spec fn agrees_with(other: StateView, entry: (VarId, VarState)) -> bool {
        lookup(other.variables, entry.0) == Some(entry.1)
    }

    /// The state where control arrives from `self` and from `other`: a
    /// variable is live if it is live on both sides with the same placement,
    /// and the stack is known as far as both sides know the same of it.
    pub open spec fn merge(self, other: StateView) -> StateView {
        StateView {
            variables: self.variables.filter(
                |entry: (VarId, VarState)| Self::agrees_with(other, entry),
            ),
            known_stack: self.known_stack.merge_with(other.known_stack),
        }
    }
}

/// The state where control arrives from two places, of which either may be
/// unreachable.
pub open spec fn merge_optional_states_view(a: Option<StateView>, b: Option<StateView>) -> Option<
    StateView,
> {
    match (a, b) {
        (None, None) => None,
        (None, Some(b)) => Some(b),
        (Some(a), None) => Some(a),
        (Some(a), Some(b)) => Some(a.merge(b)),
    }
}

impl State {
    /// The representation invariant.
    pub open spec fn wf(&self) -> bool {
        &&& self@.wf()
        &&& self.known_stack.wf()
    }

    /// The state in which no variable is live and nothing is known of the stack.
    pub fn new() -> (r: State)
        ensures
            r.wf(),
            r@ == StateView::empty(),
    {
        State { variables: variables_new(), known_stack: KnownStack::new() }
    }

    /// The state at the entry of a function with the given parameters, which
    /// all lie in the frame.
    pub fn at_entry(params: &[VarId]) -> (r: State)
        ensures
            r.wf(),
            r@ == StateView::at_entry(params@),
    {
        let mut state = State::new();
        let mut i: usize = 0;
        while i < params.len()
            invariant
                i <= params@.len(),
                state.wf(),
                state@.with_params_from(params@, i as int) == StateView::at_entry(params@),
            decreases params@.len() - i,
        {
            proof {
                lemma_inserted(state@.variables, params@[i as int], VarState::LocalVar);
            }
            variables_insert(&mut state.variables, params[i], VarState::LocalVar);
            i += 1;
        }
        state
    }

    /// A copy of the state.
    pub fn duplicate(&self) -> (r: State)
        requires
            self.wf(),
        ensures
            r.wf(),
            r@ == self@,
    {
        State { variables: variables_clone(&self.variables), known_stack: self.known_stack.duplicate() }
    }

    /// Forgets what is known of the stack.
    pub fn clear_known_stack(&mut self)
        requires
            old(self).wf(),
        ensures
            final(self).wf(),
            final(self)@ == old(self)@.clear_known_stack(),
    {
        self.known_stack.clear();
    }

    /// Records that a branch has defined `res` as `info` says.
    fn register_output(
        &mut self,
        res: VarId,
        info: &OutputVarInfo,
        args: &Vec<VarId>,
        arg_states: &Vec<VarState>,
    ) -> (r: Result<(), StoreError>)
        requires
            old(self).wf(),
        ensures
            final(self).wf(),
            match old(self)@.register_output(res, *info, args@, arg_states@) {
                Ok(next) => r is Ok && final(self)@ == next,
                Err(e) => r == Err::<(), StoreError>(e),
            },
    {
        let var_state = match info.kind {
            OutputKind::NewTempVar { .. } => VarState::TempVar { ty: info.ty },
            OutputKind::NewLocalVar => VarState::LocalVar,
            OutputKind::Deferred { kind } => VarState::Deferred {
                info: DeferredVariableInfo { ty: info.ty, kind },
            },
            OutputKind::SameAsParam { param_idx } => {
                if param_idx < args.len() && param_idx < arg_states.len() {
                    arg_states[param_idx]
                } else {
                    return Err(StoreError::SignatureMismatch);
                }
            },
        };
        self.known_stack.remove_variable(res);
        match info.kind {
            OutputKind::NewTempVar { .. } => {
                self.known_stack.push(res);
            },
            OutputKind::SameAsParam { param_idx } => {
                self.known_stack.clone_if_on_stack(args[param_idx], res);
            },
            _ => {},
        }
        proof {
            lemma_inserted(self@.variables, res, var_state);
        }
        variables_insert(&mut self.variables, res, var_state);
        Ok(())
    }

    /// Records that a branch with the given signature has defined `results`.
    pub fn register_outputs(
        &mut self,
        results: &Vec<VarId>,
        branch_signature: &BranchSignature,
        args: &Vec<VarId>,
        arg_states: &Vec<VarState>,
    ) -> (r: Result<(), StoreError>)
        requires
            old(self).wf(),
        ensures
            final(self).wf(),
            match old(self)@.register_outputs(results@, branch_signature@, args@, arg_states@) {
                Ok(next) => r is Ok && final(self)@ == next,
                Err(e) => r == Err::<(), StoreError>(e),
            },
    {
        if results.len() != branch_signature.vars.len() {
            return Err(StoreError::SignatureMismatch);
        }
        match branch_signature.ap_change {
            ApChange::Unknown => {
                self.clear_known_stack();
            },
            ApChange::BranchAlign | ApChange::Known(_) => {},
        }
        let ghost goal = old(self)@.register_outputs(
            results@,
            branch_signature@,
            args@,
            arg_states@,
        );
        let mut i: usize = 0;
        while i < results.len()
            invariant
                i <= results@.len(),
                results@.len() == branch_signature.vars@.len(),
                self.wf(),
                goal == old(self)@.register_outputs(
                    results@,
                    branch_signature@,
                    args@,
                    arg_states@,
                ),
                self@.register_outputs_from(
                    results@,
                    branch_signature.vars@,
                    args@,
                    arg_states@,
                    i as int,
                ) == goal,
            decreases results@.len() - i,
        {
            let ghost before = self@;
            match self.register_output(results[i], &branch_signature.vars[i], args, arg_states) {
                Ok(()) => {},
                Err(e) => {
                    assert(before.register_outputs_from(
                        results@,
                        branch_signature.vars@,
                        args@,
                        arg_states@,
                        i as int,
                    ) == Err::<StateView, StoreError>(e));
                    return Err(e);
                },
            }
            i += 1;
        }
        Ok(())
    }

    /// Records that `dst` is another name of `src`.
    pub fn rename_var(&mut self, src: VarId, dst: VarId)
        requires
            old(self).wf(),
        ensures
            final(self).wf(),
            final(self)@ == old(self)@.rename_var(src, dst),
    {
        self.known_stack.clone_if_on_stack(src, dst);
        match variables_get(&self.variables, src) {
            Some(state) => {
                proof {
                    lemma_inserted(self@.variables, dst, state);
                }
                variables_insert(&mut self.variables, dst, state);
            },
            None => {},
        }
    }

    /// The state where control arrives from `a` and from `b`.
    pub fn merge(a: State, b: State) -> (r: State)
        requires
            a.wf(),
            b.wf(),
        ensures
            r.wf(),
            r@ == a@.merge(b@),
    {
        let entries = variables_to_vec(&a.variables);
        let mut variables = variables_new();
        let ghost agrees = |entry: (VarId, VarState)| StateView::agrees_with(b@, entry);
        let mut i: usize = 0;
        while i < entries.len()
            invariant
                i <= entries@.len(),
                entries@ == a@.variables,
                distinct_keys(entries@),
                b.wf(),
                agrees == (|entry: (VarId, VarState)| StateView::agrees_with(b@, entry)),
                variable_entries(variables) == entries@.take(i as int).filter(agrees),
            decreases entries@.len() - i,
        {
            let (var, state) = entries[i];
            let ghost before = variable_entries(variables);
            proof {
                assert(entries@.take(i + 1).drop_last() =~= entries@.take(i as int));
                reveal(Seq::filter);
                // A variable that comes later in `a` is not among those kept so far.
                if has_key(before, var) {
                    let j = crate::ordered_map::key_index(before, var);
                    entries@.take(i as int).lemma_filter_contains_rev(agrees, before[j]);
                    let l = choose|l: int|
                        0 <= l < entries@.take(i as int).len() && entries@.take(i as int)[l]
                            == before[j];
                    assert(entries@[l].0 == entries@[i as int].0);
                }
            }
            let keep = match variables_get(&b.variables, var) {
                Some(other_state) => other_state == state,
                None => false,
            };
            if keep {
                variables_insert(&mut variables, var, state);
            }
            i += 1;
        }
        proof {
            assert(entries@.take(i as int) =~= entries@);
            lemma_filter_distinct(entries@, agrees);
        }
        State { variables, known_stack: a.known_stack.merge_with(&b.known_stack) }
    }
}

/// Keeping some pairs of a map keeps the keys distinct.
pub proof fn lemma_filter_distinct<K, V>(s: Seq<(K, V)>, pred: spec_fn((K, V)) -> bool)
    requires
        distinct_keys(s),
    ensures
        distinct_keys(s.filter(pred)),
    decreases s.len(),
{
    reveal(Seq::filter);
    if s.len() > 0 {
        let front = s.drop_last();
        assert(distinct_keys(front)) by {
            assert forall|i: int, j: int| 0 <= i < j < front.len() implies (#[trigger] front[i]).0
                != (#[trigger] front[j]).0 by {
                assert(front[i] == s[i] && front[j] == s[j]);
            }
        }
        lemma_filter_distinct(front, pred);
        let kept = front.filter(pred);
        if pred(s.last()) {
            let t = kept.push(s.last());
            assert forall|i: int, j: int| 0 <= i < j < t.len() implies (#[trigger] t[i]).0 != (
            #[trigger] t[j]).0 by {
                if j == kept.len() {
                    front.lemma_filter_contains_rev(pred, kept[i]);
                    let l = choose|l: int| 0 <= l < front.len() && front[l] == kept[i];
                    assert(s[l].0 != s[s.len() - 1].0);
                } else {
                    assert(t[i] == kept[i] && t[j] == kept[j]);
                }
            }
        }
    }
}

/// The state where control arrives from two places, of which either may be
/// unreachable.
pub fn merge_optional_states(a_opt: Option<State>, b_opt: Option<State>) -> (r: Option<State>)
    requires
        a_opt matches Some(a) ==> a.wf(),
        b_opt matches Some(b) ==> b.wf(),
    ensures
        r matches Some(state) ==> state.wf(),
        option_state_view(r) == merge_optional_states_view(
            option_state_view(a_opt),
            option_state_view(b_opt),
        ),
{
    match (a_opt, b_opt) {
        (None, None) => None,
        (None, Some(b)) => Some(b),
        (Some(a), None) => Some(a),
        (Some(a), Some(b)) => Some(State::merge(a, b)),
    }
}

/// The view of a state that may be absent.
pub open spec fn option_state_view(state: Option<State>) -> Option<StateView> {
    match state {
        Some(state) => Some(state@),
        None => None,
    }
}

} // verus!
