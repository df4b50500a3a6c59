//! Adds the `store_temp` and `store_local` instructions that a statement
//! sequence needs, together with the `dup` and `rename` instructions that
//! bring values to the top of the stack.

use vstd::prelude::*;
use crate::collections::{
    future_entries, future_states_insert, future_states_is_empty, future_states_new,
    future_states_swap_remove, local_entries, local_slot, variables_get, variables_insert,
    variables_swap_remove, variables_to_vec, FutureStates, LocalVariables,
};
use crate::error::StoreError;
use crate::laws::{
    is_input_with_stores, lemma_locals_are_stored_before_branches,
    lemma_nothing_follows_return_but_label, lemma_output_preserves_input, returns_end_blocks,
    stored_type, survives_branch, written_since,
};
use crate::ordered_map::{
    distinct_keys, has_key, inserted, key_index, lemma_inserted, lemma_swap_removed,
    lemma_with_values, lookup, swap_removed, with_values,
};
use crate::placement::{
    add_store_statements_view, add_store_statements_with, handled_prefix, infos_of,
    lemma_handled_prefix_reads_prefix, no_info, Emission, LocalsView, PassView,
};
use crate::program::{
    simple_statement, statements_view, store_local_view, BranchTarget, Invocation, LabelId,
    LibfuncId, PushValue, Statement, StatementView, TypeId, VarId,
};
use crate::signature::{ApChange, LibfuncInfo, LibfuncInfoView, ParamSignature};
use crate::state::merge_optional_states;
use crate::state::{option_state_view, State, StateView, VarState};

verus! {

/// The function that maps a state to its view.
pub open spec fn state_view() -> spec_fn(State) -> StateView {
    |state: State| state@
}

/// The pass over one function body: what has been written so far, and what
/// is known at the current statement and at the labels still to come.
struct AddStoreVariableStatements {
    local_variables: LocalVariables,
    /// The statements written so far: those of the input, and the ones added.
    result: Vec<Statement>,
    /// The placements at the current statement; `None` where control cannot
    /// arrive from the statement before.
    state_opt: Option<State>,
    /// For every label that a branch seen so far targets, the join of the
    /// states in which those branches leave. A label leaves the map when it
    /// is reached.
    future_states: FutureStates,
}

impl View for AddStoreVariableStatements {
    type V = PassView;

    closed spec fn view(&self) -> PassView {
        PassView {
            result: statements_view(self.result@),
            state: option_state_view(self.state_opt),
            future_states: with_values(future_entries(self.future_states), state_view()),
        }
    }
}

impl AddStoreVariableStatements {
    /// The representation invariant.
    closed spec fn wf(&self) -> bool {
        &&& self.state_opt matches Some(state) ==> state.wf()
        &&& distinct_keys(future_entries(self.future_states))
        &&& forall|i: int|
            0 <= i < future_entries(self.future_states).len() ==> (#[trigger] future_entries(
                self.future_states,
            )[i]).1.wf()
    }

    /// The variables that are to be stored in the frame, each with its frame cell.
    closed spec fn locals(&self) -> LocalsView {
        local_entries(self.local_variables)
    }

    /// Whether `self` differs from `before` in nothing but the statements
    /// written and the placements at the current statement, which are those
    /// of `emission`.
    spec fn advanced(&self, before: &Self, emission: Emission) -> bool {
        &&& self.wf()
        &&& self.locals() == before.locals()
        &&& self@ == before@.with_emission(emission)
    }

    /// Constructs the pass at the entry of a function with the given
    /// parameters.
    fn new(local_variables: LocalVariables, params: &[VarId]) -> (r: Self)
        ensures
            r.wf(),
            r.locals() == local_entries(local_variables),
            r@ == PassView::initial(params@),
    {
        let r = AddStoreVariableStatements {
            local_variables,
            result: Vec::new(),
            state_opt: Some(State::at_entry(params)),
            future_states: future_states_new(),
        };
        proof {
            assert(r@.result =~= Seq::empty());
            assert(r@.future_states =~= Seq::empty());
        }
        r
    }

    /// Appends `statement` to the statements written.
    fn emit(&mut self, statement: Statement)
        requires
            old(self).wf(),
        ensures
            final(self).wf(),
            final(self).locals() == old(self).locals(),
            final(self)@ == (PassView {
                result: old(self)@.result.push(statement@),
                ..old(self)@
            }),
    {
        self.result.push(statement);
        proof {
            assert(statements_view(self.result@) =~= statements_view(old(self).result@).push(
                statement@,
            ));
        }
    }

    /// Adds a `store_temp` instruction that stores `var` into `var_on_stack`.
    fn store_temp(&mut self, var: VarId, var_on_stack: VarId, ty: TypeId)
        requires
            old(self).wf(),
            old(self)@.state is Some,
        ensures
            final(self).advanced(
                old(self),
                old(self)@.emission().store_temp(var, var_on_stack, ty),
            ),
    {
        let args = vec![var];
        let results = vec![var_on_stack];
        assert(args@ =~= seq![var] && results@ =~= seq![var_on_stack]);
        self.emit(simple_statement(LibfuncId::StoreTemp(ty), args, results));
        match &mut self.state_opt {
            Some(state) => {
                proof {
                    lemma_inserted(state@.variables, var_on_stack, VarState::TempVar { ty });
                }
                state.known_stack.push(var_on_stack);
                variables_insert(&mut state.variables, var_on_stack, VarState::TempVar { ty });
            },
            None => {},
        }
    }

    /// Adds a `store_local` instruction that stores `var` into itself, in the
    /// frame cell `uninitialized_local_var_id` allocated for it.
    fn store_local(&mut self, var: VarId, uninitialized_local_var_id: VarId, ty: TypeId)
        requires
            old(self).wf(),
            old(self)@.state is Some,
        ensures
            final(self).advanced(
                old(self),
                old(self)@.emission().store_local(var, uninitialized_local_var_id, ty),
            ),
    {
        let args = vec![uninitialized_local_var_id, var];
        let results = vec![var];
        assert(args@ =~= seq![uninitialized_local_var_id, var] && results@ =~= seq![var]);
        self.emit(simple_statement(LibfuncId::StoreLocal(ty), args, results));
        match &mut self.state_opt {
            Some(state) => {
                proof {
                    lemma_inserted(state@.variables, var, VarState::LocalVar);
                }
                variables_insert(&mut state.variables, var, VarState::LocalVar);
            },
            None => {},
        }
    }

    /// Adds a `dup` instruction that duplicates `var` into `dup_var`.
    fn dup(&mut self, var: VarId, dup_var: VarId, ty: TypeId)
        requires
            old(self).wf(),
            old(self)@.state is Some,
        ensures
            final(self).advanced(old(self), old(self)@.emission().dup(var, dup_var, ty)),
    {
        let args = vec![var];
        let results = vec![var, dup_var];
        assert(args@ =~= seq![var] && results@ =~= seq![var, dup_var]);
        self.emit(simple_statement(LibfuncId::Dup(ty), args, results));
    }

    /// Adds a `rename` instruction that renames `src` to `dst`.
    fn rename_var(&mut self, src: VarId, dst: VarId, ty: TypeId)
        requires
            old(self).wf(),
            old(self)@.state is Some,
        ensures
            final(self).advanced(old(self), old(self)@.emission().rename_var(src, dst, ty)),
    {
        let args = vec![src];
        let results = vec![dst];
        assert(args@ =~= seq![src] && results@ =~= seq![dst]);
        self.emit(simple_statement(LibfuncId::Rename(ty), args, results));
        match &mut self.state_opt {
            Some(state) => {
                state.rename_var(src, dst);
            },
            None => {},
        }
    }

    /// Takes `var` out of the live variables and returns its placement.
    fn take_variable(&mut self, var: VarId) -> (r: Option<VarState>)
        requires
            old(self).wf(),
            old(self)@.state is Some,
        ensures
            r == old(self)@.emission().state.placement(var),
            final(self).advanced(old(self), old(self)@.emission().remove(var)),
    {
        match &mut self.state_opt {
            Some(state) => {
                proof {
                    lemma_swap_removed(state@.variables, var);
                }
                variables_swap_remove(&mut state.variables, var)
            },
            None => None,
        }
    }

    /// Gives `var` the placement `var_state`.
    fn set_variable(&mut self, var: VarId, var_state: VarState)
        requires
            old(self).wf(),
            old(self)@.state is Some,
        ensures
            final(self).advanced(old(self), old(self)@.emission().insert(var, var_state)),
    {
        match &mut self.state_opt {
            Some(state) => {
                proof {
                    lemma_inserted(state@.variables, var, var_state);
                }
                variables_insert(&mut state.variables, var, var_state);
            },
            None => {},
        }
    }

    /// Adds a `store_temp` or a `store_local` instruction for a deferred
    /// variable that has been taken out of the live variables, and returns
    /// the placement of the variable after the store.
    fn store_deferred(&mut self, var: VarId, ty: TypeId) -> (r: VarState)
        requires
            old(self).wf(),
            old(self)@.state is Some,
        ensures
            r == old(self)@.emission().store_deferred(old(self).locals(), var, ty).1,
            final(self).advanced(
                old(self),
                old(self)@.emission().store_deferred(old(self).locals(), var, ty).0,
            ),
    {
        self.store_deferred_ex(var, var, ty)
    }

    /// As `store_deferred`, but a variable that goes to the stack is stored
    /// there under the name `var_on_stack`.
    fn store_deferred_ex(&mut self, var: VarId, var_on_stack: VarId, ty: TypeId) -> (r: VarState)
        requires
            old(self).wf(),
            old(self)@.state is Some,
        ensures
            r == old(self)@.emission().store_deferred_ex(
                old(self).locals(),
                var,
                var_on_stack,
                ty,
            ).1,
            final(self).advanced(
                old(self),
                old(self)@.emission().store_deferred_ex(
                    old(self).locals(),
                    var,
                    var_on_stack,
                    ty,
                ).0,
            ),
    {
        match local_slot(&self.local_variables, var) {
            Some(uninitialized_local_var_id) => {
                self.store_local(var, uninitialized_local_var_id, ty);
                VarState::LocalVar
            },
            None => {
                self.store_temp(var, var_on_stack, ty);
                VarState::TempVar { ty }
            },
        }
    }

    /// Copies `var` from the stack into its frame cell if it is marked local
    /// and lies on the stack, and says whether it did.
    fn store_temp_as_local(&mut self, var: VarId) -> (r: bool)
        requires
            old(self).wf(),
            old(self)@.state is Some,
        ensures
            r == old(self)@.emission().store_temp_as_local(old(self).locals(), var).1,
            final(self).advanced(
                old(self),
                old(self)@.emission().store_temp_as_local(old(self).locals(), var).0,
            ),
    {
        let var_state = match &self.state_opt {
            Some(state) => variables_get(&state.variables, var),
            None => None,
        };
        match (local_slot(&self.local_variables, var), var_state) {
            (Some(uninitialized_local_var_id), Some(VarState::TempVar { ty })) => {
                self.take_variable(var);
                self.store_local(var, uninitialized_local_var_id, ty);
                true
            },
            _ => {
                assert(self@ == old(self)@.with_emission(old(self)@.emission()));
                false
            },
        }
    }

    /// Whether `self` differs from `before` in nothing but the statements
    /// written and the placements at the current statement, which is still
    /// reachable.
    spec fn same_frame(&self, before: &Self) -> bool {
        &&& self.wf()
        &&& self.locals() == before.locals()
        &&& self@.future_states == before@.future_states
        &&& self@.state is Some
    }

    /// Prepares `arg` to be passed to a parameter with the given signature,
    /// and returns the placement in which it is passed. A deferred value
    /// that the parameter does not accept is stored first, so the placement
    /// returned is one that the parameter accepts.
    fn prepare_libfunc_argument(&mut self, arg: VarId, param_signature: ParamSignature) -> (r:
        Result<VarState, StoreError>)
        requires
            old(self).wf(),
            old(self)@.state is Some,
        ensures
            final(self).wf(),
            final(self).locals() == old(self).locals(),
            match old(self)@.emission().prepare_libfunc_argument(
                old(self).locals(),
                arg,
                param_signature,
            ) {
                Ok((emission, arg_state)) => {
                    &&& r == Ok::<VarState, StoreError>(arg_state)
                    &&& final(self).advanced(old(self), emission)
                },
                Err(e) => r == Err::<VarState, StoreError>(e),
            },
            r matches Ok(VarState::Deferred { info }) ==> param_signature.allows(info.kind),
    {
        let var_state = match self.take_variable(arg) {
            Some(var_state) => var_state,
            None => {
                return Err(StoreError::UnknownVariable(arg));
            },
        };
        match var_state {
            VarState::Deferred { info } => {
                // A deferred argument that is marked local is stored even where
                // the parameter would accept it: another name of it may be used
                // later.
                if local_slot(&self.local_variables, arg).is_some() || !param_signature.accepts(
                    info.kind,
                ) {
                    Ok(self.store_deferred(arg, info.ty))
                } else {
                    Ok(var_state)
                }
            },
            VarState::TempVar { .. } => {
                self.set_variable(arg, var_state);
                if self.store_temp_as_local(arg) {
                    Ok(VarState::LocalVar)
                } else {
                    Ok(var_state)
                }
            },
            VarState::LocalVar => Ok(VarState::LocalVar),
        }
    }

    /// Prepares `args` to be passed to a library function with the given
    /// parameters, and returns the placement in which each is passed.
    fn prepare_libfunc_arguments(
        &mut self,
        args: &Vec<VarId>,
        param_signatures: &Vec<ParamSignature>,
    ) -> (r: Result<Vec<VarState>, StoreError>)
        requires
            old(self).wf(),
            old(self)@.state is Some,
        ensures
            final(self).wf(),
            final(self).locals() == old(self).locals(),
            match old(self)@.emission().prepare_libfunc_arguments(
                old(self).locals(),
                args@,
                param_signatures@,
            ) {
                Ok((emission, arg_states)) => {
                    &&& r matches Ok(states)
                    &&& states@ == arg_states
                    &&& final(self).advanced(old(self), emission)
                },
                Err(e) => r == Err::<Vec<VarState>, StoreError>(e),
            },
            r matches Ok(states) ==> states@.len() == args@.len() && forall|i: int|
                0 <= i < states@.len() ==> ((#[trigger] states@[i]) matches VarState::Deferred {
                    info,
                } ==> param_signatures@[i].allows(info.kind)),
    {
        if args.len() != param_signatures.len() {
            return Err(StoreError::SignatureMismatch);
        }
        let ghost goal = old(self)@.emission().prepare_libfunc_arguments(
            old(self).locals(),
            args@,
            param_signatures@,
        );
        let mut arg_states: Vec<VarState> = Vec::new();
        let mut i: usize = 0;
        while i < args.len()
            invariant
                i <= args@.len(),
                args@.len() == param_signatures@.len(),
                self.same_frame(old(self)),
                arg_states@.len() == i,
                goal == old(self)@.emission().prepare_libfunc_arguments(
                    old(self).locals(),
                    args@,
                    param_signatures@,
                ),
                self@.emission().prepare_libfunc_arguments_from(
                    self.locals(),
                    args@,
                    param_signatures@,
                    arg_states@,
                    i as int,
                ) == goal,
                forall|j: int|
                    0 <= j < i ==> ((#[trigger] arg_states@[j]) matches VarState::Deferred {
                        info,
                    } ==> param_signatures@[j].allows(info.kind)),
            decreases args@.len() - i,
        {
            let ghost before = self@.emission();
            let arg_state = match self.prepare_libfunc_argument(args[i], param_signatures[i]) {
                Ok(arg_state) => arg_state,
                Err(e) => {
                    assert(before.prepare_libfunc_arguments_from(
                        self.locals(),
                        args@,
                        param_signatures@,
                        arg_states@,
                        i as int,
                    ) == Err::<(Emission, Seq<VarState>), StoreError>(e));
                    return Err(e);
                },
            };
            // The argument is consumed.
            self.take_variable(args[i]);
            arg_states.push(arg_state);
            i += 1;
        }
        proof {
            assert(self@ == old(self)@.with_emission(self@.emission()));
        }
        Ok(arg_states)
    }

    /// Adds a `store_temp` instruction for a value that does not lie where
    /// it is wanted, after a `dup` instruction where the value stays live.
    fn push_by_store(&mut self, value: &PushValue)
        requires
            old(self).wf(),
            old(self)@.state is Some,
        ensures
            final(self).advanced(old(self), old(self)@.emission().push_by_store(*value)),
    {
        if value.dup {
            self.dup(value.var, value.var_on_stack, value.ty);
            self.store_temp(value.var_on_stack, value.var_on_stack, value.ty);
        } else {
            self.store_temp(value.var, value.var_on_stack, value.ty);
        }
    }

    /// Brings one value to the top of the stack. `in_prefix` says whether the
    /// value is among those that already lie there in the wanted order.
    fn push_value(&mut self, value: &PushValue, in_prefix: bool) -> (r: Result<(), StoreError>)
        requires
            old(self).wf(),
            old(self)@.state is Some,
        ensures
            final(self).wf(),
            final(self).locals() == old(self).locals(),
            match old(self)@.emission().push_value(old(self).locals(), *value, in_prefix) {
                Ok(emission) => r is Ok && final(self).advanced(old(self), emission),
                Err(e) => r == Err::<(), StoreError>(e),
            },
    {
        let var_state = match self.take_variable(value.var) {
            Some(var_state) => var_state,
            None => {
                return Err(StoreError::UnknownVariable(value.var));
            },
        };
        match var_state {
            VarState::Deferred { info } => {
                match info.kind {
                    crate::signature::DeferredVariableKind::Const => {
                        // A literal is stored anew for each use; one that
                        // stays live stays deferred.
                        self.push_by_store(value);
                        if value.dup {
                            self.set_variable(value.var, var_state);
                        }
                    },
                    _ => {
                        match self.store_deferred_ex(value.var, value.var_on_stack, info.ty) {
                            VarState::TempVar { .. } => {
                                if value.dup {
                                    // `var_on_stack` is ready for the push; `var`
                                    // stays available as a copy of it.
                                    self.set_variable(
                                        value.var,
                                        VarState::TempVar { ty: value.ty },
                                    );
                                    self.dup(value.var_on_stack, value.var, value.ty);
                                }
                            },
                            _ => {
                                self.push_by_store(value);
                            },
                        }
                    },
                }
            },
            _ => {
                self.set_variable(value.var, var_state);
                if in_prefix {
                    // The value lies where it is wanted: no store is needed.
                    if value.dup {
                        self.set_variable(value.var_on_stack, VarState::TempVar { ty: value.ty });
                        self.dup(value.var, value.var_on_stack, value.ty);
                    } else {
                        self.rename_var(value.var, value.var_on_stack, value.ty);
                    }
                } else {
                    self.push_by_store(value);
                }
            },
        }
        Ok(())
    }

    /// Brings `push_values` to the top of the stack, in order. The longest
    /// prefix that already lies there is renamed or duplicated instead of
    /// stored again.
    fn push_values(&mut self, push_values: &Vec<PushValue>) -> (r: Result<(), StoreError>)
        requires
            old(self).wf(),
        ensures
            final(self).wf(),
            final(self).locals() == old(self).locals(),
            match old(self)@.handle_plain_statement(
                old(self).locals(),
                StatementView::PushValues(push_values@),
            ) {
                Ok(pass) => r is Ok && final(self)@ == pass,
                Err(e) => r == Err::<(), StoreError>(e),
            },
    {
        if push_values.len() == 0 {
            return Ok(());
        }
        let prefix_size = match &self.state_opt {
            Some(state) => state.known_stack.compute_on_stack_prefix_size(push_values),
            None => {
                return Err(StoreError::UnreachableStatement);
            },
        };
        let ghost goal = old(self)@.emission().push_values(old(self).locals(), push_values@);
        let mut i: usize = 0;
        while i < push_values.len()
            invariant
                i <= push_values@.len(),
                push_values@.len() > 0,
                old(self)@.state is Some,
                self.same_frame(old(self)),
                goal == old(self)@.emission().push_values(old(self).locals(), push_values@),
                self@.emission().push_values_from(
                    self.locals(),
                    push_values@,
                    prefix_size as int,
                    i as int,
                ) == goal,
            decreases push_values@.len() - i,
        {
            let ghost before = self@.emission();
            match self.push_value(&push_values[i], i < prefix_size) {
                Ok(()) => {},
                Err(e) => {
                    assert(before.push_values_from(
                        self.locals(),
                        push_values@,
                        prefix_size as int,
                        i as int,
                    ) == Err::<Emission, StoreError>(e));
                    return Err(e);
                },
            }
            i += 1;
        }
        proof {
            assert(self@ == old(self)@.with_emission(self@.emission()));
        }
        Ok(())
    }

    /// Stores every variable that a branch may misalign or revoke. Afterwards
    /// every live variable that is marked local lies in the frame, unless it
    /// is a literal; for each that did not, a `store_local` has been written.
    fn store_all_possibly_lost_variables(&mut self)
        requires
            old(self).wf(),
            old(self)@.state is Some,
        ensures
            final(self).advanced(
                old(self),
                old(self)@.emission().store_all_possibly_lost_variables(old(self).locals()),
            ),
            forall|var: VarId| #[trigger]
                has_key(final(self)@.emission().state.variables, var) && has_key(
                    old(self).locals(),
                    var,
                ) ==> {
                    &&& has_key(old(self)@.emission().state.variables, var)
                    &&& survives_branch(
                        lookup(final(self)@.emission().state.variables, var)->Some_0,
                    )
                    &&& !survives_branch(
                        lookup(old(self)@.emission().state.variables, var)->Some_0,
                    ) ==> written_since(
                        final(self)@.result,
                        old(self)@.result.len() as int,
                        store_local_view(
                            var,
                            lookup(old(self).locals(), var)->Some_0,
                            stored_type(lookup(old(self)@.emission().state.variables, var)->Some_0),
                        ),
                    )
                },
    {
        proof {
            lemma_locals_are_stored_before_branches(old(self)@.emission(), old(self).locals());
        }
        let snapshot = match &self.state_opt {
            Some(state) => variables_to_vec(&state.variables),
            None => Vec::new(),
        };
        let ghost goal = old(self)@.emission().store_all_possibly_lost_variables(
            old(self).locals(),
        );
        let mut i: usize = 0;
        while i < snapshot.len()
            invariant
                i <= snapshot@.len(),
                self.same_frame(old(self)),
                snapshot@ == old(self)@.emission().state.variables,
                goal == old(self)@.emission().store_all_possibly_lost_variables(
                    old(self).locals(),
                ),
                self@.emission().store_all_possibly_lost_from(
                    self.locals(),
                    snapshot@,
                    i as int,
                ) == goal,
            decreases snapshot@.len() - i,
        {
            let ghost before = self@.emission();
            let (var, var_state) = snapshot[i];
            match var_state {
                VarState::TempVar { .. } => {
                    self.store_temp_as_local(var);
                },
                VarState::Deferred { info } => {
                    match info.kind {
                        crate::signature::DeferredVariableKind::Const => {},
                        _ => {
                            self.take_variable(var);
                            self.store_deferred(var, info.ty);
                        },
                    }
                },
                VarState::LocalVar => {},
            }
            assert(self@.emission() == before.store_possibly_lost(
                self.locals(),
                snapshot@[i as int],
            ));
            i += 1;
        }
        proof {
            assert(self@ == old(self)@.with_emission(self@.emission()));
        }
    }

    /// Stores every live variable that is marked local and does not lie in
    /// the frame yet.
    fn store_variables_as_locals(&mut self)
        requires
            old(self).wf(),
            old(self)@.state is Some,
        ensures
            final(self).advanced(
                old(self),
                old(self)@.emission().store_variables_as_locals(old(self).locals()),
            ),
    {
        let snapshot = match &self.state_opt {
            Some(state) => variables_to_vec(&state.variables),
            None => Vec::new(),
        };
        let ghost goal = old(self)@.emission().store_variables_as_locals(old(self).locals());
        let mut i: usize = 0;
        while i < snapshot.len()
            invariant
                i <= snapshot@.len(),
                self.same_frame(old(self)),
                snapshot@ == old(self)@.emission().state.variables,
                goal == old(self)@.emission().store_variables_as_locals(old(self).locals()),
                self@.emission().store_variables_as_locals_from(
                    self.locals(),
                    snapshot@,
                    i as int,
                ) == goal,
            decreases snapshot@.len() - i,
        {
            let ghost before = self@.emission();
            let (var, var_state) = snapshot[i];
            match local_slot(&self.local_variables, var) {
                Some(uninitialized_local_var_id) => {
                    match var_state {
                        VarState::Deferred { info } => {
                            self.take_variable(var);
                            self.store_local(var, uninitialized_local_var_id, info.ty);
                        },
                        VarState::TempVar { ty } => {
                            self.take_variable(var);
                            self.store_local(var, uninitialized_local_var_id, ty);
                        },
                        VarState::LocalVar => {},
                    }
                },
                None => {},
            }
            assert(self@.emission() == before.store_as_local(self.locals(), snapshot@[i as int]));
            i += 1;
        }
        proof {
            assert(self@ == old(self)@.with_emission(self@.emission()));
        }
    }

    /// Takes the state recorded for `label` out of the recorded states.
    fn take_future_state(&mut self, label: LabelId) -> (r: Option<State>)
        requires
            old(self).wf(),
        ensures
            final(self).wf(),
            final(self).locals() == old(self).locals(),
            r matches Some(state) ==> state.wf(),
            option_state_view(r) == lookup(old(self)@.future_states, label),
            final(self)@ == (PassView {
                future_states: swap_removed(old(self)@.future_states, label),
                ..old(self)@
            }),
    {
        let ghost entries = future_entries(self.future_states);
        proof {
            lemma_swap_removed(entries, label);
            lemma_with_values(entries, state_view(), label, arbitrary());
            if has_key(entries, label) {
                assert(entries[key_index(entries, label)].1.wf());
            }
            let after = swap_removed(entries, label);
            assert forall|i: int| 0 <= i < after.len() implies (#[trigger] after[i]).1.wf() by {
                if has_key(entries, label) {
                    if i == key_index(entries, label) {
                        assert(after[i] == entries[entries.len() - 1]);
                    } else {
                        assert(after[i] == entries[i]);
                    }
                }
            }
        }
        future_states_swap_remove(&mut self.future_states, label)
    }

    /// Records `state` for `label`.
    fn put_future_state(&mut self, label: LabelId, state: State)
        requires
            old(self).wf(),
            state.wf(),
        ensures
            final(self).wf(),
            final(self).locals() == old(self).locals(),
            final(self)@ == (PassView {
                future_states: inserted(old(self)@.future_states, label, state@),
                ..old(self)@
            }),
    {
        let ghost entries = future_entries(self.future_states);
        proof {
            lemma_inserted(entries, label, state);
            lemma_with_values(entries, state_view(), label, state);
            let after = inserted(entries, label, state);
            assert forall|i: int| 0 <= i < after.len() implies (#[trigger] after[i]).1.wf() by {
                if has_key(entries, label) {
                    if i != key_index(entries, label) {
                        assert(after[i] == entries[i]);
                    }
                } else if i < entries.len() {
                    assert(after[i] == entries[i]);
                }
            }
        }
        future_states_insert(&mut self.future_states, label, state);
    }

    /// Joins `state` into the state recorded for `target`: into
    /// `fallthrough_state` where the branch falls through, else into the state
    /// recorded for the label.
    fn add_future_state(
        &mut self,
        target: &BranchTarget,
        state: State,
        fallthrough_state: &mut Option<State>,
    )
        requires
            old(self).wf(),
            state.wf(),
            *old(fallthrough_state) matches Some(fallthrough) ==> fallthrough.wf(),
        ensures
            final(self).wf(),
            final(self).locals() == old(self).locals(),
            *final(fallthrough_state) matches Some(fallthrough) ==> fallthrough.wf(),
            final(self)@.result == old(self)@.result,
            final(self)@.state == old(self)@.state,
            (final(self)@.future_states, option_state_view(*final(fallthrough_state)))
                == PassView::add_future_state(
                old(self)@.future_states,
                option_state_view(*old(fallthrough_state)),
                *target,
                state@,
            ),
    {
        match target {
            BranchTarget::Fallthrough => {
                let new_state = merge_optional_states(fallthrough_state.take(), Some(state));
                *fallthrough_state = new_state;
            },
            BranchTarget::Statement(label_id) => {
                let new_state = merge_optional_states(
                    self.take_future_state(*label_id),
                    Some(state),
                );
                match new_state {
                    Some(new_state) => {
                        self.put_future_state(*label_id, new_state);
                    },
                    None => {},
                }
            },
        }
    }

    /// Handles an invocation of a library function with the given
    /// information, up to the invocation itself, which the caller writes.
    fn handle_invocation(&mut self, invocation: &Invocation, libfunc_info: &LibfuncInfo) -> (r:
        Result<(), StoreError>)
        requires
            old(self).wf(),
        ensures
            final(self).wf(),
            final(self).locals() == old(self).locals(),
            match old(self)@.handle_invocation(old(self).locals(), invocation@, libfunc_info@) {
                Ok(pass) => r is Ok && pass == (PassView {
                    result: final(self)@.result.push(StatementView::Invocation(invocation@)),
                    ..final(self)@
                }),
                Err(e) => r == Err::<(), StoreError>(e),
            },
    {
        if self.state_opt.is_none() {
            return Err(StoreError::UnreachableStatement);
        }
        let signature = &libfunc_info.signature;
        let arg_states = match self.prepare_libfunc_arguments(
            &invocation.args,
            &signature.param_signatures,
        ) {
            Ok(arg_states) => arg_states,
            Err(e) => {
                return Err(e);
            },
        };
        let ghost prepared = self@.emission();
        let simple = invocation.branches.len() == 1 && match invocation.branches[0].target {
            BranchTarget::Fallthrough => true,
            BranchTarget::Statement(_) => false,
        };
        if simple {
            // A simple invocation.
            if signature.branch_signatures.len() == 0 {
                return Err(StoreError::SignatureMismatch);
            }
            let branch_signature = &signature.branch_signatures[0];
            match branch_signature.ap_change {
                ApChange::Unknown => {
                    // What the unknown movement of the stack pointer would
                    // revoke is stored in the frame.
                    self.store_variables_as_locals();
                },
                ApChange::BranchAlign | ApChange::Known(_) => {},
            }
            match &mut self.state_opt {
                Some(state) => {
                    match state.register_outputs(
                        &invocation.branches[0].results,
                        branch_signature,
                        &invocation.args,
                        &arg_states,
                    ) {
                        Ok(()) => {},
                        Err(e) => {
                            return Err(e);
                        },
                    }
                },
                None => {},
            }
            Ok(())
        } else {
            // This starts a branch.
            if invocation.branches.len() > 1 {
                self.store_all_possibly_lost_variables();
                match &mut self.state_opt {
                    Some(state) => {
                        state.clear_known_stack();
                    },
                    None => {},
                }
            }
            if invocation.branches.len() != signature.branch_signatures.len() {
                return Err(StoreError::SignatureMismatch);
            }
            let ghost start = self@.state->Some_0;
            let ghost written = self@.result;
            let ghost goal = PassView::add_branches_from(
                start,
                old(self)@.future_states,
                None,
                invocation@.branches,
                libfunc_info@.signature.branch_signatures,
                invocation@.args,
                arg_states@,
                0,
            );
            // The state of a branch that falls through is joined into
            // `fallthrough_state`.
            let mut fallthrough_state: Option<State> = None;
            let mut i: usize = 0;
            while i < invocation.branches.len()
                invariant
                    i <= invocation.branches@.len(),
                    invocation.branches@.len() == signature.branch_signatures@.len(),
                    signature == &libfunc_info.signature,
                    self.wf(),
                    self.locals() == old(self).locals(),
                    self@.state == Some(start),
                    self@.result == written,
                    fallthrough_state matches Some(fallthrough) ==> fallthrough.wf(),
                    old(self)@.handle_invocation(old(self).locals(), invocation@, libfunc_info@)
                        == (match goal {
                        Ok((future_states, fallthrough)) => Ok(
                            PassView {
                                result: written.push(StatementView::Invocation(invocation@)),
                                state: fallthrough,
                                future_states,
                            },
                        ),
                        Err(e) => Err(e),
                    }),
                    PassView::add_branches_from(
                        start,
                        self@.future_states,
                        option_state_view(fallthrough_state),
                        invocation@.branches,
                        libfunc_info@.signature.branch_signatures,
                        invocation@.args,
                        arg_states@,
                        i as int,
                    ) == goal,
                decreases invocation.branches@.len() - i,
            {
                let branch = &invocation.branches[i];
                let branch_signature = &signature.branch_signatures[i];
                assert(invocation@.branches[i as int] == branch@);
                assert(libfunc_info@.signature.branch_signatures[i as int] == branch_signature@);
                let mut state_at_branch = match &self.state_opt {
                    Some(state) => state.duplicate(),
                    None => State::new(),
                };
                match state_at_branch.register_outputs(
                    &branch.results,
                    branch_signature,
                    &invocation.args,
                    &arg_states,
                ) {
                    Ok(()) => {},
                    Err(e) => {
                        assert(goal == Err::<
                            (Seq<(LabelId, StateView)>, Option<StateView>),
                            StoreError,
                        >(e));
                        return Err(e);
                    },
                }
                self.add_future_state(&branch.target, state_at_branch, &mut fallthrough_state);
                i += 1;
            }
            self.state_opt = fallthrough_state;
            Ok(())
        }
    }

    /// Handles one statement: adds the store instructions that it needs, and
    /// then the statement itself. The second component is what the lookup
    /// returned, for an invocation.
    fn handle_statement<F: Fn(LibfuncId) -> LibfuncInfo>(
        &mut self,
        statement: Statement,
        get_lib_func_signature: &F,
    ) -> (r: (Result<(), StoreError>, Ghost<LibfuncInfoView>))
        requires
            old(self).wf(),
            forall|id: LibfuncId| call_requires(get_lib_func_signature, (id,)),
        ensures
            final(self).wf(),
            final(self).locals() == old(self).locals(),
            answered(get_lib_func_signature, statement@, r.1@),
            match old(self)@.handle_statement(old(self).locals(), statement@, r.1@) {
                Ok(pass) => r.0 is Ok && final(self)@ == pass,
                Err(e) => r.0 == Err::<(), StoreError>(e),
            },
    {
        match &statement {
            Statement::Invocation(invocation) => {
                let libfunc_info = get_lib_func_signature(invocation.libfunc_id);
                assert(call_ensures(
                    get_lib_func_signature,
                    (invocation.libfunc_id,),
                    libfunc_info,
                ));
                match self.handle_invocation(invocation, &libfunc_info) {
                    Ok(()) => {},
                    Err(e) => {
                        return (Err(e), Ghost(libfunc_info@));
                    },
                }
                self.emit(statement);
                (Ok(()), Ghost(libfunc_info@))
            },
            Statement::Return(_) => {
                if self.state_opt.is_none() {
                    return (Err(StoreError::UnreachableStatement), Ghost(no_info()));
                }
                self.emit(statement);
                // A `return` is preceded by a push of the values returned;
                // the other variables are not needed, and the next
                // statement is not reachable from this one.
                self.state_opt = None;
                (Ok(()), Ghost(no_info()))
            },
            Statement::Label(label_id) => {
                // The state at the label is the join of the current state
                // and of what the branches to the label have recorded.
                let future_state = self.take_future_state(*label_id);
                self.state_opt = merge_optional_states(self.state_opt.take(), future_state);
                self.emit(statement);
                (Ok(()), Ghost(no_info()))
            },
            Statement::PushValues(push_values) => (self.push_values(push_values), Ghost(no_info())),
        }
    }

    /// Hands out the statements written. Control must not reach the end of
    /// the function, and no branch may target a label that has not followed.
    fn finalize(self) -> (r: Result<Vec<Statement>, StoreError>)
        requires
            self.wf(),
        ensures
            statements_result_view(r) == self@.finalize(),
    {
        if self.state_opt.is_some() {
            return Err(StoreError::ReachableEnd);
        }
        if !future_states_is_empty(&self.future_states) {
            return Err(StoreError::UnhandledLabel);
        }
        Ok(self.result)
    }
}

/// Whether `info` is what the lookup `get_lib_func_signature` returned for
/// `statement`: for an invocation a result of the lookup for its library
/// function; for another statement, for which nothing is looked up,
/// `no_info()`.
pub open spec fn answered<F: Fn(LibfuncId) -> LibfuncInfo>(
    get_lib_func_signature: &F,
    statement: StatementView,
    info: LibfuncInfoView,
) -> bool {
    match statement {
        StatementView::Invocation(invocation) => exists|found: LibfuncInfo|
            #[trigger] call_ensures(get_lib_func_signature, (invocation.libfunc_id,), found)
                && found@ == info,
        _ => info == no_info(),
    }
}

/// Whether `infos` holds, for each statement that the pass gets to, what
/// the lookup `get_lib_func_signature` returned for it.
pub open spec fn answers<F: Fn(LibfuncId) -> LibfuncInfo>(
    get_lib_func_signature: &F,
    statements: Seq<StatementView>,
    infos: Seq<LibfuncInfoView>,
    locals: LocalsView,
    params: Seq<VarId>,
) -> bool {
    &&& infos.len() == statements.len()
    &&& forall|i: int|
        0 <= i < statements.len() && (#[trigger] handled_prefix(
            statements,
            infos,
            locals,
            params,
            i,
        )) is Ok ==> answered(get_lib_func_signature, statements[i], infos[i])
}

/// Whether the lookup `get_lib_func_signature` is the function
/// `libfunc_info`: whatever it returns for a library function is what
/// `libfunc_info` gives for it.
pub open spec fn describes<F: Fn(LibfuncId) -> LibfuncInfo>(
    get_lib_func_signature: &F,
    libfunc_info: spec_fn(LibfuncId) -> LibfuncInfoView,
) -> bool {
    forall|id: LibfuncId, info: LibfuncInfo|
        call_ensures(get_lib_func_signature, (id,), info) ==> info@ == libfunc_info(id)
}

/// The view of the outcome of placement.
pub open spec fn statements_result_view(r: Result<Vec<Statement>, StoreError>) -> Result<
    Seq<StatementView>,
    StoreError,
> {
    match r {
        Ok(statements) => Ok(statements_view(statements@)),
        Err(e) => Err(e),
    }
}

/// `infos`, continued with `no_info()` up to the length `n`.
pub open spec fn padded(infos: Seq<LibfuncInfoView>, n: int) -> Seq<LibfuncInfoView> {
    Seq::new(
        n as nat,
        |i: int|
            if i < infos.len() {
                infos[i]
            } else {
                no_info()
            },
    )
}

/// Once the pass has stopped, it stays stopped: the statements that follow
/// the one that is malformed are not handled.
pub proof fn lemma_error_stays(
    statements: Seq<StatementView>,
    infos: Seq<LibfuncInfoView>,
    locals: LocalsView,
    params: Seq<VarId>,
    m: int,
    n: int,
)
    requires
        0 <= m <= n,
        handled_prefix(statements, infos, locals, params, m) is Err,
    ensures
        handled_prefix(statements, infos, locals, params, n) == handled_prefix(
            statements,
            infos,
            locals,
            params,
            m,
        ),
    decreases n - m,
{
    if m < n {
        lemma_error_stays(statements, infos, locals, params, m, n - 1);
    }
}

/// Where the lookup is a function, placement is the function
/// `add_store_statements_view` of it: the results of the lookup are those
/// that the function gives.
pub proof fn lemma_described<F: Fn(LibfuncId) -> LibfuncInfo>(
    get_lib_func_signature: &F,
    libfunc_info: spec_fn(LibfuncId) -> LibfuncInfoView,
    statements: Seq<StatementView>,
    infos: Seq<LibfuncInfoView>,
    locals: LocalsView,
    params: Seq<VarId>,
)
    requires
        answers(get_lib_func_signature, statements, infos, locals, params),
        describes(get_lib_func_signature, libfunc_info),
    ensures
        add_store_statements_with(statements, infos, locals, params) == add_store_statements_view(
            statements,
            libfunc_info,
            locals,
            params,
        ),
{
    lemma_described_prefix(
        get_lib_func_signature,
        libfunc_info,
        statements,
        infos,
        locals,
        params,
        statements.len() as int,
    );
}

/// Where the lookup is a function, the pass after the first `n` statements
/// is what that function gives.
proof fn lemma_described_prefix<F: Fn(LibfuncId) -> LibfuncInfo>(
    get_lib_func_signature: &F,
    libfunc_info: spec_fn(LibfuncId) -> LibfuncInfoView,
    statements: Seq<StatementView>,
    infos: Seq<LibfuncInfoView>,
    locals: LocalsView,
    params: Seq<VarId>,
    n: int,
)
    requires
        0 <= n <= statements.len(),
        answers(get_lib_func_signature, statements, infos, locals, params),
        describes(get_lib_func_signature, libfunc_info),
    ensures
        handled_prefix(statements, infos, locals, params, n) == handled_prefix(
            statements,
            infos_of(statements, libfunc_info),
            locals,
            params,
            n,
        ),
    decreases n,
{
    if n > 0 {
        lemma_described_prefix(
            get_lib_func_signature,
            libfunc_info,
            statements,
            infos,
            locals,
            params,
            n - 1,
        );
        let before = handled_prefix(statements, infos, locals, params, n - 1);
        if before is Ok {
            assert(answered(get_lib_func_signature, statements[n - 1], infos[n - 1]));
            assert(infos[n - 1] == infos_of(statements, libfunc_info)[n - 1]);
        }
    }
}

/// Adds the store instructions that `statements` needs, or says why
/// `statements` is malformed.
///
/// A deferred value is stored as a temporary or a local variable before the
/// first statement that cannot take it as it is. `local_variables` maps each
/// variable that is to be stored in the frame to the frame cell allocated for
/// it; `params` are the parameters of the function, which lie in the frame.
/// `get_lib_func_signature` is called once for each invocation that the pass
/// gets to.
pub fn try_add_store_statements<F: Fn(LibfuncId) -> LibfuncInfo>(
    statements: Vec<Statement>,
    get_lib_func_signature: &F,
    local_variables: LocalVariables,
    params: &[VarId],
) -> (r: Result<Vec<Statement>, StoreError>)
    requires
        forall|id: LibfuncId| call_requires(get_lib_func_signature, (id,)),
    ensures
        exists|infos: Seq<LibfuncInfoView>|
            (#[trigger] answers(
                get_lib_func_signature,
                statements_view(statements@),
                infos,
                local_entries(local_variables),
                params@,
            )) && statements_result_view(r) == add_store_statements_with(
                statements_view(statements@),
                infos,
                local_entries(local_variables),
                params@,
            ),
        forall|libfunc_info: spec_fn(LibfuncId) -> LibfuncInfoView|
            describes(get_lib_func_signature, libfunc_info) ==> statements_result_view(r) == (
            #[trigger] add_store_statements_view(
                statements_view(statements@),
                libfunc_info,
                local_entries(local_variables),
                params@,
            )),
        r matches Ok(output) ==> is_input_with_stores(
            statements_view(statements@),
            statements_view(output@),
        ),
        r matches Ok(output) ==> returns_end_blocks(statements_view(output@)),
{
    let ghost input = statements_view(statements@);
    let ghost locals = local_entries(local_variables);
    let ghost mut infos: Seq<LibfuncInfoView> = Seq::empty();
    let mut handler = AddStoreVariableStatements::new(local_variables, params);
    for statement in iter: statements
        invariant
            handler.wf(),
            handler.locals() == locals,
            locals == local_entries(local_variables),
            input == statements_view(statements@),
            input == statements_view(iter.seq()),
            forall|id: LibfuncId| call_requires(get_lib_func_signature, (id,)),
            infos.len() == iter.index(),
            forall|i: int|
                0 <= i < infos.len() ==> answered(
                    get_lib_func_signature,
                    input[i],
                    #[trigger] infos[i],
                ),
            handled_prefix(input, infos, locals, params@, iter.index() as int) == Ok::<
                PassView,
                StoreError,
            >(handler@),
    {
        let ghost at = iter.index() as int;
        let ghost asked = infos;
        assert(input[at] == statement@);
        let (handled, info) = handler.handle_statement(statement, get_lib_func_signature);
        proof {
            infos = asked.push(info@);
            lemma_handled_prefix_reads_prefix(input, asked, infos, locals, params@, at);
        }
        match handled {
            Ok(()) => {},
            Err(e) => {
                proof {
                    let all = padded(infos, input.len() as int);
                    lemma_handled_prefix_reads_prefix(input, infos, all, locals, params@, at + 1);
                    lemma_error_stays(input, all, locals, params@, at + 1, input.len() as int);
                    assert(answers(get_lib_func_signature, input, all, locals, params@)) by {
                        assert forall|i: int|
                            0 <= i < input.len() && (#[trigger] handled_prefix(
                                input,
                                all,
                                locals,
                                params@,
                                i,
                            )) is Ok implies answered(get_lib_func_signature, input[i], all[i]) by {
                            if i > at {
                                lemma_error_stays(input, all, locals, params@, at + 1, i);
                            } else {
                                assert(all[i] == infos[i]);
                            }
                        }
                    }
                    assert forall|libfunc_info: spec_fn(LibfuncId) -> LibfuncInfoView|
                        describes(get_lib_func_signature, libfunc_info) implies Err::<
                        Seq<StatementView>,
                        StoreError,
                    >(e) == (#[trigger] add_store_statements_view(
                        input,
                        libfunc_info,
                        locals,
                        params@,
                    )) by {
                        lemma_described(
                            get_lib_func_signature,
                            libfunc_info,
                            input,
                            all,
                            locals,
                            params@,
                        );
                    }
                }
                return Err(e);
            },
        }
    }
    proof {
        assert(answers(get_lib_func_signature, input, infos, locals, params@));
        assert forall|libfunc_info: spec_fn(LibfuncId) -> LibfuncInfoView|
            describes(get_lib_func_signature, libfunc_info) implies handler@.finalize() == (
        #[trigger] add_store_statements_view(input, libfunc_info, locals, params@)) by {
            lemma_described(get_lib_func_signature, libfunc_info, input, infos, locals, params@);
        }
        if handler@.finalize() is Ok {
            lemma_output_preserves_input(input, infos, locals, params@);
            lemma_nothing_follows_return_but_label(input, infos, locals, params@);
        }
    }
    handler.finalize()
}

/// Adds the store instructions that `statements` needs.
///
/// A deferred value is stored as a temporary or a local variable before the
/// first statement that cannot take it as it is. `local_variables` maps each
/// variable that is to be stored in the frame to the frame cell allocated for
/// it; `params` are the parameters of the function, which lie in the frame.
///
/// The statements must be well formed, whatever the lookup returns: see
/// [`try_add_store_statements`] for a function that tells.
pub fn add_store_statements<F: Fn(LibfuncId) -> LibfuncInfo>(
    statements: Vec<Statement>,
    get_lib_func_signature: &F,
    local_variables: LocalVariables,
    params: &[VarId],
) -> (r: Vec<Statement>)
    requires
        forall|id: LibfuncId| call_requires(get_lib_func_signature, (id,)),
        forall|infos: Seq<LibfuncInfoView>|
            (#[trigger] answers(
                get_lib_func_signature,
                statements_view(statements@),
                infos,
                local_entries(local_variables),
                params@,
            )) ==> add_store_statements_with(
                statements_view(statements@),
                infos,
                local_entries(local_variables),
                params@,
            ) is Ok,
    ensures
        exists|infos: Seq<LibfuncInfoView>|
            (#[trigger] answers(
                get_lib_func_signature,
                statements_view(statements@),
                infos,
                local_entries(local_variables),
                params@,
            )) && Ok::<Seq<StatementView>, StoreError>(statements_view(r@))
                == add_store_statements_with(
                statements_view(statements@),
                infos,
                local_entries(local_variables),
                params@,
            ),
        forall|libfunc_info: spec_fn(LibfuncId) -> LibfuncInfoView|
            describes(get_lib_func_signature, libfunc_info) ==> Ok::<
                Seq<StatementView>,
                StoreError,
            >(statements_view(r@)) == (#[trigger] add_store_statements_view(
                statements_view(statements@),
                libfunc_info,
                local_entries(local_variables),
                params@,
            )),
        is_input_with_stores(statements_view(statements@), statements_view(r@)),
        returns_end_blocks(statements_view(r@)),
{
    match try_add_store_statements(statements, get_lib_func_signature, local_variables, params) {
        Ok(result) => result,
        Err(_) => unreached(),
    }
}

} // verus!
