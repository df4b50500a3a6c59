//! What placement does, as mathematics: each step of the pass as a function
//! from the state before it to the state after it.

use vstd::prelude::*;
use crate::error::StoreError;
use crate::ordered_map::{inserted, lookup, swap_removed};
use crate::program::{
    dup_view, rename_view, store_local_view, store_temp_view, BranchInfoView, BranchTarget,
    InvocationView, LabelId, LibfuncId, PushValue, StatementView, TypeId, VarId,
};
use crate::signature::{
    BranchSignatureView, LibfuncInfoView, LibfuncSignatureView, ParamSignature,
};
use crate::state::{merge_optional_states_view, StateView, VarState};

verus! {

/// The pass at a reachable point: the statements written so far and the
/// placements of the live variables.
pub struct Emission {
    pub result: Seq<StatementView>,
    pub state: StateView,
}

/// The pass between two statements.
pub struct PassView {
    /// The statements written so far.
    pub result: Seq<StatementView>,
    /// The placements at this point; `None` where control cannot arrive from
    /// the statement before.
    pub state: Option<StateView>,
    /// For each label that a branch seen so far targets and that has not
    /// followed yet, the join of the states in which those branches leave.
    pub future_states: Seq<(LabelId, StateView)>,
}

/// The variables to be stored in the frame, each with its frame cell.
pub type LocalsView = Seq<(VarId, VarId)>;

impl Emission {
    /// The emission after `var` has left the live variables.
    pub open spec fn remove(self, var: VarId) -> Emission {
        Emission {
            state: StateView { variables: swap_removed(self.state.variables, var), ..self.state },
            ..self
        }
    }

    /// The emission after `var` has the placement `state`.
    pub open spec fn insert(self, var: VarId, state: VarState) -> Emission {
        Emission { state: self.state.insert(var, state), ..self }
    }

    /// Writes `store_temp<ty>(var) -> var_on_stack`: afterwards `var_on_stack`
    /// lies on top of the stack.
    pub open spec fn store_temp(self, var: VarId, var_on_stack: VarId, ty: TypeId) -> Emission {
        Emission {
            result: self.result.push(store_temp_view(var, var_on_stack, ty)),
            state: StateView {
                variables: inserted(
                    self.state.variables,
                    var_on_stack,
                    VarState::TempVar { ty },
                ),
                known_stack: self.state.known_stack.push(var_on_stack),
            },
        }
    }

    /// Writes `store_local<ty>(uninitialized_local, var) -> var`: afterwards
    /// `var` lies in the frame.
    pub open spec fn store_local(self, var: VarId, uninitialized_local: VarId, ty: TypeId)
        -> Emission {
        Emission {
            result: self.result.push(store_local_view(var, uninitialized_local, ty)),
            state: self.state.insert(var, VarState::LocalVar),
        }
    }

    /// Writes `dup<ty>(var) -> (var, dup_var)`. The placements are left to the caller.
    pub open spec fn dup(self, var: VarId, dup_var: VarId, ty: TypeId) -> Emission {
        Emission { result: self.result.push(dup_view(var, dup_var, ty)), ..self }
    }

    /// Writes `rename<ty>(src) -> dst`: afterwards `dst` is another name of `src`.
    pub open spec fn rename_var(self, src: VarId, dst: VarId, ty: TypeId) -> Emission {
        Emission {
            result: self.result.push(rename_view(src, dst, ty)),
            state: self.state.rename_var(src, dst),
        }
    }

    /// Stores a deferred variable that has left the live variables: in its
    /// frame cell where it is marked local, else on the stack as
    /// `var_on_stack`. The second component is the placement after the store.
    pub open spec fn store_deferred_ex(
        self,
        locals: LocalsView,
        var: VarId,
        var_on_stack: VarId,
        ty: TypeId,
    ) -> (Emission, VarState) {
        match lookup(locals, var) {
            Some(uninitialized_local) => (
                self.store_local(var, uninitialized_local, ty),
                VarState::LocalVar,
            ),
            None => (self.store_temp(var, var_on_stack, ty), VarState::TempVar { ty }),
        }
    }

    /// Stores a deferred variable under its own name.
    pub open spec fn store_deferred(self, locals: LocalsView, var: VarId, ty: TypeId) -> (
        Emission,
        VarState,
    ) {
        self.store_deferred_ex(locals, var, var, ty)
    }

    /// Copies `var` from the stack to its frame cell where it is marked local
    /// and lies on the stack; does nothing otherwise. The second component
    /// says whether `var` was copied.
    pub open spec fn store_temp_as_local(self, locals: LocalsView, var: VarId) -> (
        Emission,
        bool,
    ) {
        match (lookup(locals, var), lookup(self.state.variables, var)) {
            (Some(uninitialized_local), Some(VarState::TempVar { ty })) => (
                self.remove(var).store_local(var, uninitialized_local, ty),
                true,
            ),
            _ => (self, false),
        }
    }

    /// Makes `arg` fit a parameter with the signature `param`. The second
    /// component is the placement in which the argument is passed.
    pub open spec fn prepare_libfunc_argument(
        self,
        locals: LocalsView,
        arg: VarId,
        param: ParamSignature,
    ) -> Result<(Emission, VarState), StoreError> {
        match lookup(self.state.variables, arg) {
            None => Err(StoreError::UnknownVariable(arg)),
            Some(VarState::Deferred { info }) => if lookup(locals, arg) is Some || !param.allows(
                info.kind,
            ) {
                Ok(self.remove(arg).store_deferred(locals, arg, info.ty))
            } else {
                Ok((self.remove(arg), VarState::Deferred { info }))
            },
            Some(VarState::TempVar { ty }) => match self.remove(arg).insert(
                arg,
                VarState::TempVar { ty },
            ).store_temp_as_local(locals, arg) {
                (next, true) => Ok((next, VarState::LocalVar)),
                (next, false) => Ok((next, VarState::TempVar { ty })),
            },
            Some(VarState::LocalVar) => Ok((self.remove(arg), VarState::LocalVar)),
        }
    }

    /// Prepares the arguments from `i` on, each of which is consumed, and adds
    /// the placements in which they are passed to `arg_states`.
    pub open spec fn prepare_libfunc_arguments_from(
        self,
        locals: LocalsView,
        args: Seq<VarId>,
        params: Seq<ParamSignature>,
        arg_states: Seq<VarState>,
        i: int,
    ) -> Result<(Emission, Seq<VarState>), StoreError>
        decreases args.len() - i,
    {
        if 0 <= i < args.len() {
            match self.prepare_libfunc_argument(locals, args[i], params[i]) {
                Ok((next, arg_state)) => next.remove(args[i]).prepare_libfunc_arguments_from(
                    locals,
                    args,
                    params,
                    arg_states.push(arg_state),
                    i + 1,
                ),
                Err(e) => Err(e),
            }
        } else {
            Ok((self, arg_states))
        }
    }

    /// Prepares the arguments of an invocation. The second component holds the
    /// placement in which each argument is passed.
    pub open spec fn prepare_libfunc_arguments(
        self,
        locals: LocalsView,
        args: Seq<VarId>,
        params: Seq<ParamSignature>,
    ) -> Result<(Emission, Seq<VarState>), StoreError> {
        if args.len() != params.len() {
            Err(StoreError::SignatureMismatch)
        } else {
            self.prepare_libfunc_arguments_from(locals, args, params, Seq::empty(), 0)
        }
    }

    /// Writes `store_temp` for a value that does not lie where it is wanted,
    /// after a `dup` where the value must stay live.
    pub open spec fn push_by_store(self, value: PushValue) -> Emission {
        if value.dup {
            self.dup(value.var, value.var_on_stack, value.ty).store_temp(
                value.var_on_stack,
                value.var_on_stack,
                value.ty,
            )
        } else {
            self.store_temp(value.var, value.var_on_stack, value.ty)
        }
    }

    /// Brings one value to the top of the stack. `in_prefix` says whether the
    /// value is among those that already lie there in the wanted order.
    pub open spec fn push_value(self, locals: LocalsView, value: PushValue, in_prefix: bool)
        -> Result<Emission, StoreError> {
        match lookup(self.state.variables, value.var) {
            None => Err(StoreError::UnknownVariable(value.var)),
            Some(VarState::Deferred { info }) => {
                let start = self.remove(value.var);
                if info.kind is Const {
                    if value.dup {
                        Ok(start.push_by_store(value).insert(value.var, VarState::Deferred { info }))
                    } else {
                        Ok(start.push_by_store(value))
                    }
                } else {
                    let (stored, placement) = start.store_deferred_ex(
                        locals,
                        value.var,
                        value.var_on_stack,
                        info.ty,
                    );
                    if placement is TempVar {
                        if value.dup {
                            Ok(
                                stored.insert(value.var, VarState::TempVar { ty: value.ty }).dup(
                                    value.var_on_stack,
                                    value.var,
                                    value.ty,
                                ),
                            )
                        } else {
                            Ok(stored)
                        }
                    } else {
                        Ok(stored.push_by_store(value))
                    }
                }
            },
            Some(placement) => {
                // The value stays live, as the last of the live variables.
                let live = self.remove(value.var).insert(value.var, placement);
                if in_prefix {
                    if value.dup {
                        Ok(
                            live.insert(
                                value.var_on_stack,
                                VarState::TempVar { ty: value.ty },
                            ).dup(
                                value.var,
                                value.var_on_stack,
                                value.ty,
                            ),
                        )
                    } else {
                        Ok(live.rename_var(value.var, value.var_on_stack, value.ty))
                    }
                } else {
                    Ok(live.push_by_store(value))
                }
            },
        }
    }

    /// Brings the values from `i` on to the top of the stack, of which the
    /// first `prefix_size` already lie there.
    pub open spec fn push_values_from(
        self,
        locals: LocalsView,
        values: Seq<PushValue>,
        prefix_size: int,
        i: int,
    ) -> Result<Emission, StoreError>
        decreases values.len() - i,
    {
        if 0 <= i < values.len() {
            match self.push_value(locals, values[i], i < prefix_size) {
                Ok(next) => next.push_values_from(locals, values, prefix_size, i + 1),
                Err(e) => Err(e),
            }
        } else {
            Ok(self)
        }
    }

    /// Brings `values` to the top of the stack, in order. The longest prefix
    /// that already lies there is renamed or duplicated, not stored again.
    pub open spec fn push_values(self, locals: LocalsView, values: Seq<PushValue>) -> Result<
        Emission,
        StoreError,
    > {
        self.push_values_from(
            locals,
            values,
            self.state.known_stack.on_stack_prefix_size(values),
            0,
        )
    }

    /// Saves one variable that a branch may lose: a variable on the stack is
    /// copied to its frame cell where it is marked local, and a deferred value
    /// other than a literal is stored.
    pub open spec fn store_possibly_lost(self, locals: LocalsView, entry: (VarId, VarState))
        -> Emission {
        match entry.1 {
            VarState::TempVar { .. } => self.store_temp_as_local(locals, entry.0).0,
            VarState::Deferred { info } => if info.kind is Const {
                self
            } else {
                self.remove(entry.0).store_deferred(locals, entry.0, info.ty).0
            },
            VarState::LocalVar => self,
        }
    }

    /// Saves the variables of `snapshot` from `i` on.
    pub open spec fn store_all_possibly_lost_from(
        self,
        locals: LocalsView,
        snapshot: Seq<(VarId, VarState)>,
        i: int,
    ) -> Emission
        decreases snapshot.len() - i,
    {
        if 0 <= i < snapshot.len() {
            self.store_possibly_lost(locals, snapshot[i]).store_all_possibly_lost_from(
                locals,
                snapshot,
                i + 1,
            )
        } else {
            self
        }
    }

    /// Saves every live variable that a branch may lose, in the order in
    /// which the variables stand before the first store.
    pub open spec fn store_all_possibly_lost_variables(self, locals: LocalsView) -> Emission {
        self.store_all_possibly_lost_from(locals, self.state.variables, 0)
    }

    /// Stores one variable in its frame cell if it is marked local and does
    /// not lie there yet.
    pub open spec fn store_as_local(self, locals: LocalsView, entry: (VarId, VarState))
        -> Emission {
        match (lookup(locals, entry.0), entry.1) {
            (Some(uninitialized_local), VarState::Deferred { info }) => self.remove(
                entry.0,
            ).store_local(entry.0, uninitialized_local, info.ty),
            (Some(uninitialized_local), VarState::TempVar { ty }) => self.remove(
                entry.0,
            ).store_local(entry.0, uninitialized_local, ty),
            _ => self,
        }
    }

    /// Stores the variables of `snapshot` from `i` on in their frame cells.
    pub open spec fn store_variables_as_locals_from(
        self,
        locals: LocalsView,
        snapshot: Seq<(VarId, VarState)>,
        i: int,
    ) -> Emission
        decreases snapshot.len() - i,
    {
        if 0 <= i < snapshot.len() {
            self.store_as_local(locals, snapshot[i]).store_variables_as_locals_from(
                locals,
                snapshot,
                i + 1,
            )
        } else {
            self
        }
    }

    /// Stores every live variable that is marked local in its frame cell, in
    /// the order in which the variables stand before the first store.
    pub open spec fn store_variables_as_locals(self, locals: LocalsView) -> Emission {
        self.store_variables_as_locals_from(locals, self.state.variables, 0)
    }
}

impl PassView {
    /// The pass before the first statement of a function with the given parameters.
    pub open spec fn initial(params: Seq<VarId>) -> PassView {
        PassView {
            result: Seq::empty(),
            state: Some(StateView::at_entry(params)),
            future_states: Seq::empty(),
        }
    }

    /// The pass at a point that control can reach.
    pub open spec fn emission(self) -> Emission
        recommends
            self.state is Some,
    {
        Emission { result: self.result, state: self.state->Some_0 }
    }

    /// The pass after the steps that led to `emission`.
    pub open spec fn with_emission(self, emission: Emission) -> PassView {
        PassView { result: emission.result, state: Some(emission.state), ..self }
    }

    /// Records that a branch leaves towards `target` in the state `state`:
    /// the state is joined with what is recorded for the label, or, for a
    /// branch that falls through, with `fallthrough`.
    pub open spec fn add_future_state(
        future_states: Seq<(LabelId, StateView)>,
        fallthrough: Option<StateView>,
        target: BranchTarget,
        state: StateView,
    ) -> (Seq<(LabelId, StateView)>, Option<StateView>) {
        match target {
            BranchTarget::Fallthrough => (
                future_states,
                merge_optional_states_view(fallthrough, Some(state)),
            ),
            BranchTarget::Statement(label) => (
                inserted(
                    swap_removed(future_states, label),
                    label,
                    merge_optional_states_view(lookup(future_states, label), Some(state))->Some_0,
                ),
                fallthrough,
            ),
        }
    }

    /// Records the branches from `i` on, each of which leaves in the state
    /// `start` with its own results defined.
    pub open spec fn add_branches_from(
        start: StateView,
        future_states: Seq<(LabelId, StateView)>,
        fallthrough: Option<StateView>,
        branches: Seq<BranchInfoView>,
        signatures: Seq<BranchSignatureView>,
        args: Seq<VarId>,
        arg_states: Seq<VarState>,
        i: int,
    ) -> Result<(Seq<(LabelId, StateView)>, Option<StateView>), StoreError>
        decreases branches.len() - i,
    {
        if 0 <= i < branches.len() {
            match start.register_outputs(branches[i].results, signatures[i], args, arg_states) {
                Ok(state_at_branch) => {
                    let (next_future, next_fallthrough) = Self::add_future_state(
                        future_states,
                        fallthrough,
                        branches[i].target,
                        state_at_branch,
                    );
                    Self::add_branches_from(
                        start,
                        next_future,
                        next_fallthrough,
                        branches,
                        signatures,
                        args,
                        arg_states,
                        i + 1,
                    )
                },
                Err(e) => Err(e),
            }
        } else {
            Ok((future_states, fallthrough))
        }
    }

    /// Whether the invocation has one branch, which falls through.
    pub open spec fn is_simple(invocation: InvocationView) -> bool {
        invocation.branches.len() == 1 && invocation.branches[0].target is Fallthrough
    }

    /// The pass after an invocation whose arguments have been prepared, with
    /// one branch, which falls through.
    pub open spec fn handle_simple_invocation(
        self,
        locals: LocalsView,
        invocation: InvocationView,
        info: LibfuncInfoView,
        prepared: Emission,
        arg_states: Seq<VarState>,
    ) -> Result<PassView, StoreError> {
        if info.signature.branch_signatures.len() == 0 {
            Err(StoreError::SignatureMismatch)
        } else {
            let branch_signature = info.signature.branch_signatures[0];
            let stored = if branch_signature.ap_change is Unknown {
                prepared.store_variables_as_locals(locals)
            } else {
                prepared
            };
            match stored.state.register_outputs(
                invocation.branches[0].results,
                branch_signature,
                invocation.args,
                arg_states,
            ) {
                Ok(state) => Ok(
                    PassView {
                        result: stored.result.push(StatementView::Invocation(invocation)),
                        state: Some(state),
                        future_states: self.future_states,
                    },
                ),
                Err(e) => Err(e),
            }
        }
    }

    /// The emission before an invocation that branches, after its arguments
    /// have been prepared: where there is more than one branch, what a branch
    /// may lose is saved and nothing is known of the stack afterwards.
    pub open spec fn before_branches(
        locals: LocalsView,
        invocation: InvocationView,
        prepared: Emission,
    ) -> Emission {
        if invocation.branches.len() > 1 {
            let stored = prepared.store_all_possibly_lost_variables(locals);
            Emission { state: stored.state.clear_known_stack(), ..stored }
        } else {
            prepared
        }
    }

    /// The pass after an invocation whose arguments have been prepared and
    /// that is not simple.
    pub open spec fn handle_branching_invocation(
        self,
        locals: LocalsView,
        invocation: InvocationView,
        info: LibfuncInfoView,
        prepared: Emission,
        arg_states: Seq<VarState>,
    ) -> Result<PassView, StoreError> {
        let stored = Self::before_branches(locals, invocation, prepared);
        if invocation.branches.len() != info.signature.branch_signatures.len() {
            Err(StoreError::SignatureMismatch)
        } else {
            match Self::add_branches_from(
                stored.state,
                self.future_states,
                None,
                invocation.branches,
                info.signature.branch_signatures,
                invocation.args,
                arg_states,
                0,
            ) {
                Ok((future_states, fallthrough)) => Ok(
                    PassView {
                        result: stored.result.push(StatementView::Invocation(invocation)),
                        state: fallthrough,
                        future_states,
                    },
                ),
                Err(e) => Err(e),
            }
        }
    }

    /// The pass after an invocation of a library function with the given
    /// information.
    pub open spec fn handle_invocation(
        self,
        locals: LocalsView,
        invocation: InvocationView,
        info: LibfuncInfoView,
    ) -> Result<PassView, StoreError> {
        if self.state is None {
            Err(StoreError::UnreachableStatement)
        } else {
            match self.emission().prepare_libfunc_arguments(
                locals,
                invocation.args,
                info.signature.param_signatures,
            ) {
                Ok((prepared, arg_states)) => if Self::is_simple(invocation) {
                    self.handle_simple_invocation(locals, invocation, info, prepared, arg_states)
                } else {
                    self.handle_branching_invocation(
                        locals,
                        invocation,
                        info,
                        prepared,
                        arg_states,
                    )
                },
                Err(e) => Err(e),
            }
        }
    }

    /// The pass after a statement that is no invocation.
    pub open spec fn handle_plain_statement(self, locals: LocalsView, statement: StatementView)
        -> Result<PassView, StoreError>
        recommends
            !(statement is Invocation),
    {
        match statement {
            StatementView::Return(_) => if self.state is None {
                Err(StoreError::UnreachableStatement)
            } else {
                Ok(PassView { result: self.result.push(statement), state: None, ..self })
            },
            StatementView::Label(label) => Ok(
                PassView {
                    result: self.result.push(statement),
                    state: merge_optional_states_view(
                        self.state,
                        lookup(self.future_states, label),
                    ),
                    future_states: swap_removed(self.future_states, label),
                },
            ),
            StatementView::PushValues(values) => if values.len() == 0 {
                Ok(self)
            } else if self.state is None {
                Err(StoreError::UnreachableStatement)
            } else {
                match self.emission().push_values(locals, values) {
                    Ok(pushed) => Ok(self.with_emission(pushed)),
                    Err(e) => Err(e),
                }
            },
            StatementView::Invocation(_) => Ok(self),
        }
    }

    /// The pass after one statement; `info` is what the lookup returns for the
    /// library function of an invocation, and is not read for another statement.
    pub open spec fn handle_statement(
        self,
        locals: LocalsView,
        statement: StatementView,
        info: LibfuncInfoView,
    ) -> Result<PassView, StoreError> {
        match statement {
            StatementView::Invocation(invocation) => self.handle_invocation(
                locals,
                invocation,
                info,
            ),
            _ => self.handle_plain_statement(locals, statement),
        }
    }

    /// The statements written, once the last statement has been handled:
    /// control must not run past the end, and every label that a branch
    /// targets must have followed.
    pub open spec fn finalize(self) -> Result<Seq<StatementView>, StoreError> {
        if self.state is Some {
            Err(StoreError::ReachableEnd)
        } else if self.future_states.len() != 0 {
            Err(StoreError::UnhandledLabel)
        } else {
            Ok(self.result)
        }
    }
}

/// The information that stands for a statement that is no invocation.
pub open spec fn no_info() -> LibfuncInfoView {
    LibfuncInfoView {
        signature: LibfuncSignatureView {
            param_signatures: Seq::empty(),
            branch_signatures: Seq::empty(),
        },
    }
}

/// For each statement, what the lookup `libfunc_info` returns for it: for an
/// invocation the information of its library function, else `no_info()`.
pub open spec fn infos_of(
    statements: Seq<StatementView>,
    libfunc_info: spec_fn(LibfuncId) -> LibfuncInfoView,
) -> Seq<LibfuncInfoView> {
    Seq::new(
        statements.len(),
        |i: int|
            match statements[i] {
                StatementView::Invocation(invocation) => libfunc_info(invocation.libfunc_id),
                _ => no_info(),
            },
    )
}

/// The pass after the first `n` statements of a function with the given
/// parameters, where `infos` holds for each statement what the lookup
/// returned for it.
pub open spec fn handled_prefix(
    statements: Seq<StatementView>,
    infos: Seq<LibfuncInfoView>,
    locals: LocalsView,
    params: Seq<VarId>,
    n: int,
) -> Result<PassView, StoreError>
    decreases n,
{
    if n <= 0 {
        Ok(PassView::initial(params))
    } else {
        match handled_prefix(statements, infos, locals, params, n - 1) {
            Ok(pass) => pass.handle_statement(locals, statements[n - 1], infos[n - 1]),
            Err(e) => Err(e),
        }
    }
}

/// The statements that placement writes for `statements`, where `infos`
/// holds for each statement what the lookup returned for it: the statements
/// themselves in their order, with the store, dup and rename instructions
/// that their variables need; or the reason why `statements` is malformed.
pub open spec fn add_store_statements_with(
    statements: Seq<StatementView>,
    infos: Seq<LibfuncInfoView>,
    locals: LocalsView,
    params: Seq<VarId>,
) -> Result<Seq<StatementView>, StoreError> {
    match handled_prefix(statements, infos, locals, params, statements.len() as int) {
        Ok(pass) => pass.finalize(),
        Err(e) => Err(e),
    }
}

/// The statements that placement writes for `statements` where the lookup
/// of library functions is the function `libfunc_info`.
pub open spec fn add_store_statements_view(
    statements: Seq<StatementView>,
    libfunc_info: spec_fn(LibfuncId) -> LibfuncInfoView,
    locals: LocalsView,
    params: Seq<VarId>,
) -> Result<Seq<StatementView>, StoreError> {
    add_store_statements_with(statements, infos_of(statements, libfunc_info), locals, params)
}

/// What the pass does after the first `n` statements does not depend on
/// what the lookup returns for the later ones.
pub proof fn lemma_handled_prefix_reads_prefix(
    statements: Seq<StatementView>,
    infos: Seq<LibfuncInfoView>,
    other_infos: Seq<LibfuncInfoView>,
    locals: LocalsView,
    params: Seq<VarId>,
    n: int,
)
    requires
        forall|i: int| 0 <= i < n ==> infos[i] == other_infos[i],
    ensures
        handled_prefix(statements, infos, locals, params, n) == handled_prefix(
            statements,
            other_infos,
            locals,
            params,
            n,
        ),
    decreases n,
{
    if n > 0 {
        lemma_handled_prefix_reads_prefix(statements, infos, other_infos, locals, params, n - 1);
    }
}

} // verus!
