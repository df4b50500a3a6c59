//! What holds of every run of placement.

use vstd::prelude::*;
use crate::error::StoreError;
use crate::ordered_map::{
    distinct_keys, has_key, key_index, lemma_inserted, lemma_key_index_unique,
    lemma_swap_removed, lookup,
};
use crate::placement::{
    add_store_statements_view, add_store_statements_with, handled_prefix, infos_of, Emission,
    LocalsView, PassView,
};
use crate::program::{
    is_store_instruction, store_local_view, InvocationView, LibfuncId, PushValue, StatementView,
    TypeId, VarId,
};
use crate::signature::{LibfuncInfoView, ParamSignature};
use crate::state::VarState;

verus! {

/// `after` is `before` followed by store instructions and nothing else.
pub open spec fn extends_with_stores(before: Seq<StatementView>, after: Seq<StatementView>)
    -> bool {
    &&& before.len() <= after.len()
    &&& forall|j: int| 0 <= j < before.len() ==> #[trigger] after[j] == before[j]
    &&& forall|j: int| before.len() <= j < after.len() ==> is_store_instruction(#[trigger] after[j])
}

/// Storing a deferred variable adds store instructions only.
pub proof fn lemma_store_deferred_ex_extends(
    e: Emission,
    locals: LocalsView,
    var: VarId,
    var_on_stack: VarId,
    ty: u64,
)
    ensures
        extends_with_stores(e.result, e.store_deferred_ex(locals, var, var_on_stack, ty).0.result),
        extends_with_stores(
            e.result,
            e.remove(var).store_deferred_ex(locals, var, var_on_stack, ty).0.result,
        ),
{
}

/// Copying a variable to its frame cell adds store instructions only.
pub proof fn lemma_store_temp_as_local_extends(e: Emission, locals: LocalsView, var: VarId)
    ensures
        extends_with_stores(e.result, e.store_temp_as_local(locals, var).0.result),
{
}

/// Preparing one argument adds store instructions only.
pub proof fn lemma_prepare_libfunc_argument_extends(
    e: Emission,
    locals: LocalsView,
    arg: VarId,
    param: ParamSignature,
)
    ensures
        e.prepare_libfunc_argument(locals, arg, param) matches Ok((next, _))
            ==> extends_with_stores(e.result, next.result),
{
    match lookup(e.state.variables, arg) {
        Some(VarState::Deferred { info }) => {
            lemma_store_deferred_ex_extends(e, locals, arg, arg, info.ty);
        },
        Some(VarState::TempVar { ty }) => {
            lemma_store_temp_as_local_extends(
                e.remove(arg).insert(arg, VarState::TempVar { ty }),
                locals,
                arg,
            );
        },
        _ => {},
    }
}

/// Preparing the arguments of an invocation adds store instructions only.
pub proof fn lemma_prepare_libfunc_arguments_extends(
    e: Emission,
    locals: LocalsView,
    args: Seq<VarId>,
    params: Seq<ParamSignature>,
    arg_states: Seq<VarState>,
    i: int,
)
    requires
        0 <= i,
    ensures
        e.prepare_libfunc_arguments_from(locals, args, params, arg_states, i) matches Ok(
            (next, _),
        ) ==> extends_with_stores(e.result, next.result),
    decreases args.len() - i,
{
    if i < args.len() {
        lemma_prepare_libfunc_argument_extends(e, locals, args[i], params[i]);
        match e.prepare_libfunc_argument(locals, args[i], params[i]) {
            Ok((next, arg_state)) => {
                lemma_prepare_libfunc_arguments_extends(
                    next.remove(args[i]),
                    locals,
                    args,
                    params,
                    arg_states.push(arg_state),
                    i + 1,
                );
            },
            Err(_) => {},
        }
    }
}

/// Bringing one value to the top of the stack adds store instructions only.
pub proof fn lemma_push_value_extends(
    e: Emission,
    locals: LocalsView,
    value: PushValue,
    in_prefix: bool,
)
    ensures
        e.push_value(locals, value, in_prefix) matches Ok(next) ==> extends_with_stores(
            e.result,
            next.result,
        ),
{
}

/// Bringing values to the top of the stack adds store instructions only.
pub proof fn lemma_push_values_extends(
    e: Emission,
    locals: LocalsView,
    values: Seq<PushValue>,
    prefix_size: int,
    i: int,
)
    requires
        0 <= i,
    ensures
        e.push_values_from(locals, values, prefix_size, i) matches Ok(next)
            ==> extends_with_stores(e.result, next.result),
    decreases values.len() - i,
{
    if i < values.len() {
        lemma_push_value_extends(e, locals, values[i], i < prefix_size);
        match e.push_value(locals, values[i], i < prefix_size) {
            Ok(next) => {
                lemma_push_values_extends(next, locals, values, prefix_size, i + 1);
            },
            Err(_) => {},
        }
    }
}

/// Saving what a branch may lose adds store instructions only.
pub proof fn lemma_store_all_possibly_lost_extends(
    e: Emission,
    locals: LocalsView,
    snapshot: Seq<(VarId, VarState)>,
    i: int,
)
    requires
        0 <= i,
    ensures
        extends_with_stores(e.result, e.store_all_possibly_lost_from(locals, snapshot, i).result),
    decreases snapshot.len() - i,
{
    if i < snapshot.len() {
        lemma_store_all_possibly_lost_extends(
            e.store_possibly_lost(locals, snapshot[i]),
            locals,
            snapshot,
            i + 1,
        );
    }
}

/// Storing the local variables in the frame adds store instructions only.
pub proof fn lemma_store_variables_as_locals_extends(
    e: Emission,
    locals: LocalsView,
    snapshot: Seq<(VarId, VarState)>,
    i: int,
)
    requires
        0 <= i,
    ensures
        extends_with_stores(e.result, e.store_variables_as_locals_from(locals, snapshot, i).result),
    decreases snapshot.len() - i,
{
    if i < snapshot.len() {
        lemma_store_variables_as_locals_extends(
            e.store_as_local(locals, snapshot[i]),
            locals,
            snapshot,
            i + 1,
        );
    }
}

/// What one statement adds to the statements written: store instructions,
/// and then the statement itself unless it is a push request. Where control
/// cannot arrive, only a label is written.
pub proof fn lemma_handle_statement_shape(
    p: PassView,
    locals: LocalsView,
    statement: StatementView,
    info: LibfuncInfoView,
)
    requires
        p.handle_statement(locals, statement, info) is Ok,
    ensures
        ({
            let q = p.handle_statement(locals, statement, info)->Ok_0;
            &&& statement is PushValues ==> extends_with_stores(p.result, q.result)
            &&& !(statement is PushValues) ==> q.result.len() > 0 && q.result.last() == statement
                && extends_with_stores(p.result, q.result.drop_last())
            &&& p.state is None ==> q.result == p.result || (statement is Label && q.result
                == p.result.push(statement))
            &&& p.state is None && statement is PushValues ==> q == p
            &&& statement is Return ==> q.state is None
        }),
{
    let q = p.handle_statement(locals, statement, info)->Ok_0;
    match statement {
        StatementView::Invocation(invocation) => {
            lemma_handle_invocation_shape(p, locals, invocation, info);
        },
        StatementView::PushValues(values) => {
            if values.len() > 0 {
                lemma_push_values_extends(
                    p.emission(),
                    locals,
                    values,
                    p.emission().state.known_stack.on_stack_prefix_size(values),
                    0,
                );
            }
        },
        _ => {
            assert(q.result.drop_last() =~= p.result);
        },
    }
}

/// What an invocation adds to the statements written: store instructions,
/// and then the invocation.
pub proof fn lemma_handle_invocation_shape(
    p: PassView,
    locals: LocalsView,
    invocation: InvocationView,
    info: LibfuncInfoView,
)
    requires
        p.handle_invocation(locals, invocation, info) is Ok,
    ensures
        ({
            let q = p.handle_invocation(locals, invocation, info)->Ok_0;
            &&& p.state is Some
            &&& q.result.len() > 0
            &&& q.result.last() == StatementView::Invocation(invocation)
            &&& extends_with_stores(p.result, q.result.drop_last())
        }),
{
    let q = p.handle_invocation(locals, invocation, info)->Ok_0;
    let e = p.emission();
    lemma_prepare_libfunc_arguments_extends(
        e,
        locals,
        invocation.args,
        info.signature.param_signatures,
        Seq::empty(),
        0,
    );
    let (prepared, arg_states) = e.prepare_libfunc_arguments(
        locals,
        invocation.args,
        info.signature.param_signatures,
    )->Ok_0;
    if PassView::is_simple(invocation) {
        lemma_store_variables_as_locals_extends(prepared, locals, prepared.state.variables, 0);
        let branch_signature = info.signature.branch_signatures[0];
        let stored = if branch_signature.ap_change is Unknown {
            prepared.store_variables_as_locals(locals)
        } else {
            prepared
        };
        assert(q.result.drop_last() =~= stored.result);
    } else {
        lemma_store_all_possibly_lost_extends(prepared, locals, prepared.state.variables, 0);
        let stored = PassView::before_branches(locals, invocation, prepared);
        assert(q.result.drop_last() =~= stored.result);
    }
}

/// The statements of `statements` that `keep` marks, in order.
pub open spec fn picked(statements: Seq<StatementView>, keep: Seq<bool>) -> Seq<StatementView>
    decreases statements.len(),
{
    if statements.len() == 0 || keep.len() != statements.len() {
        Seq::empty()
    } else {
        let rest = picked(statements.drop_last(), keep.drop_last());
        if keep.last() {
            rest.push(statements.last())
        } else {
            rest
        }
    }
}

/// The statements of `statements` that are no push requests, in order.
pub open spec fn without_push_values(statements: Seq<StatementView>) -> Seq<StatementView> {
    statements.filter(|statement: StatementView| !(statement is PushValues))
}

/// `keep` marks the statements of `output` that are those of `input`; the
/// others are store instructions.
pub open spec fn marks_input(
    input: Seq<StatementView>,
    output: Seq<StatementView>,
    keep: Seq<bool>,
) -> bool {
    &&& keep.len() == output.len()
    &&& picked(output, keep) == without_push_values(input)
    &&& forall|j: int| 0 <= j < output.len() && !keep[j] ==> is_store_instruction(#[trigger] output[j])
}

/// Striking some store instructions from `output` leaves the statements of
/// `input` in their order, but for its push requests.
pub open spec fn is_input_with_stores(input: Seq<StatementView>, output: Seq<StatementView>)
    -> bool {
    exists|keep: Seq<bool>| marks_input(input, output, keep)
}

/// Store instructions that follow the output can be struck as well.
proof fn lemma_marks_extended(
    input: Seq<StatementView>,
    output: Seq<StatementView>,
    keep: Seq<bool>,
    longer: Seq<StatementView>,
) -> (longer_keep: Seq<bool>)
    requires
        marks_input(input, output, keep),
        extends_with_stores(output, longer),
    ensures
        marks_input(input, longer, longer_keep),
    decreases longer.len(),
{
    if longer.len() == output.len() {
        assert(longer =~= output);
        keep
    } else {
        let shorter = longer.drop_last();
        let shorter_keep = lemma_marks_extended(input, output, keep, shorter);
        let longer_keep = shorter_keep.push(false);
        assert(longer_keep.drop_last() =~= shorter_keep);
        assert(picked(longer, longer_keep) == picked(shorter, shorter_keep));
        assert forall|j: int| 0 <= j < longer.len() && !longer_keep[j] implies is_store_instruction(
            #[trigger] longer[j],
        ) by {
            if j < shorter.len() {
                assert(longer[j] == shorter[j] && longer_keep[j] == shorter_keep[j]);
            }
        }
        longer_keep
    }
}

/// One more statement of the input, handled, keeps the output an input with
/// stores.
proof fn lemma_marks_step(
    p: PassView,
    locals: LocalsView,
    statements: Seq<StatementView>,
    info: LibfuncInfoView,
    i: int,
)
    requires
        0 <= i < statements.len(),
        is_input_with_stores(statements.take(i), p.result),
        p.handle_statement(locals, statements[i], info) is Ok,
    ensures
        is_input_with_stores(
            statements.take(i + 1),
            p.handle_statement(locals, statements[i], info)->Ok_0.result,
        ),
{
    let statement = statements[i];
    let q = p.handle_statement(locals, statement, info)->Ok_0;
    let keep = choose|keep: Seq<bool>| marks_input(statements.take(i), p.result, keep);
    lemma_handle_statement_shape(p, locals, statement, info);
    assert(statements.take(i + 1).drop_last() =~= statements.take(i));
    assert(without_push_values(statements.take(i + 1)) == if statement is PushValues {
        without_push_values(statements.take(i))
    } else {
        without_push_values(statements.take(i)).push(statement)
    }) by {
        reveal(Seq::filter);
    }
    if statement is PushValues {
        let longer_keep = lemma_marks_extended(statements.take(i), p.result, keep, q.result);
        assert(marks_input(statements.take(i + 1), q.result, longer_keep));
    } else {
        let stores_keep = lemma_marks_extended(
            statements.take(i),
            p.result,
            keep,
            q.result.drop_last(),
        );
        let longer_keep = stores_keep.push(true);
        let written = q.result.drop_last();
        assert(longer_keep.drop_last() =~= stores_keep);
        assert(picked(q.result, longer_keep) == picked(written, stores_keep).push(statement));
        assert forall|j: int|
            0 <= j < q.result.len() && !longer_keep[j] implies is_store_instruction(
            #[trigger] q.result[j],
        ) by {
            if j < written.len() {
                assert(q.result[j] == written[j] && longer_keep[j] == stores_keep[j]);
            }
        }
        assert(marks_input(statements.take(i + 1), q.result, longer_keep));
    }
}

/// After the first `n` statements the output is their input with stores.
proof fn lemma_marks_prefix(
    statements: Seq<StatementView>,
    infos: Seq<LibfuncInfoView>,
    locals: LocalsView,
    params: Seq<VarId>,
    n: int,
)
    requires
        0 <= n <= statements.len(),
        handled_prefix(statements, infos, locals, params, n) is Ok,
    ensures
        is_input_with_stores(
            statements.take(n),
            handled_prefix(statements, infos, locals, params, n)->Ok_0.result,
        ),
    decreases n,
{
    if n == 0 {
        assert(marks_input(
            statements.take(0),
            PassView::initial(params).result,
            Seq::<bool>::empty(),
        )) by {
            reveal(Seq::filter);
            assert(statements.take(0) =~= Seq::<StatementView>::empty());
        }
    } else {
        lemma_marks_prefix(statements, infos, locals, params, n - 1);
        lemma_marks_step(
            handled_prefix(statements, infos, locals, params, n - 1)->Ok_0,
            locals,
            statements,
            infos[n - 1],
            n - 1,
        );
    }
}

/// Placement keeps the statements and their order, whatever the lookup
/// returns: striking store instructions that were added from the output
/// leaves the input, but for its push requests, which the added instructions
/// carry out.
pub proof fn lemma_output_preserves_input(
    statements: Seq<StatementView>,
    infos: Seq<LibfuncInfoView>,
    locals: LocalsView,
    params: Seq<VarId>,
)
    requires
        add_store_statements_with(statements, infos, locals, params) is Ok,
    ensures
        is_input_with_stores(
            statements,
            add_store_statements_with(statements, infos, locals, params)->Ok_0,
        ),
{
    lemma_marks_prefix(statements, infos, locals, params, statements.len() as int);
    assert(statements.take(statements.len() as int) =~= statements);
}

/// In `output` every `return` but the last statement is followed by a label.
pub open spec fn returns_end_blocks(output: Seq<StatementView>) -> bool {
    forall|j: int|
        0 <= j < output.len() - 1 && (#[trigger] output[j]) is Return ==> output[j + 1] is Label
}

/// What holds between two statements of a run: what was written obeys
/// `returns_end_blocks`, and after a `return` control cannot arrive.
pub open spec fn closed_after_return(p: PassView) -> bool {
    &&& returns_end_blocks(p.result)
    &&& p.result.len() > 0 && p.result.last() is Return ==> p.state is None
}

/// One statement keeps `closed_after_return`.
proof fn lemma_closed_step(
    p: PassView,
    locals: LocalsView,
    statement: StatementView,
    info: LibfuncInfoView,
)
    requires
        closed_after_return(p),
        p.handle_statement(locals, statement, info) is Ok,
    ensures
        closed_after_return(p.handle_statement(locals, statement, info)->Ok_0),
{
    let q = p.handle_statement(locals, statement, info)->Ok_0;
    lemma_handle_statement_shape(p, locals, statement, info);
    let n = p.result.len() as int;
    if p.state is None {
        if q.result != p.result {
            assert forall|j: int|
                0 <= j < q.result.len() - 1 && (#[trigger] q.result[j]) is Return implies q.result[j
                + 1] is Label by {
                if j < n - 1 {
                    assert(q.result[j] == p.result[j]);
                    assert(q.result[j + 1] == p.result[j + 1]);
                }
            }
        }
    } else {
        let written = if statement is PushValues {
            q.result
        } else {
            q.result.drop_last()
        };
        assert(extends_with_stores(p.result, written));
        assert forall|j: int| 0 <= j < q.result.len() implies (#[trigger] q.result[j]) == (if j
            < n {
            p.result[j]
        } else {
            q.result[j]
        }) && (n <= j < written.len() ==> is_store_instruction(q.result[j])) by {
            if j < written.len() {
                assert(written[j] == q.result[j]);
            }
        }
        assert forall|j: int|
            0 <= j < q.result.len() - 1 && (#[trigger] q.result[j]) is Return implies q.result[j
            + 1] is Label by {
            if j < n - 1 {
                assert(q.result[j] == p.result[j]);
                assert(q.result[j + 1] == p.result[j + 1]);
            } else if j == n - 1 {
                assert(q.result[j] == p.result[j]);
            } else {
                assert(is_store_instruction(q.result[j]));
            }
        }
        if q.result.len() > 0 && q.result.last() is Return && statement is PushValues {
            let last = q.result.len() - 1;
            if last >= n {
                assert(is_store_instruction(q.result[last]));
            } else {
                assert(q.result[last] == p.result[last]);
            }
        }
    }
}

/// The first `n` statements keep `closed_after_return`.
proof fn lemma_closed_prefix(
    statements: Seq<StatementView>,
    infos: Seq<LibfuncInfoView>,
    locals: LocalsView,
    params: Seq<VarId>,
    n: int,
)
    requires
        handled_prefix(statements, infos, locals, params, n) is Ok,
    ensures
        closed_after_return(handled_prefix(statements, infos, locals, params, n)->Ok_0),
    decreases n,
{
    if n > 0 {
        lemma_closed_prefix(statements, infos, locals, params, n - 1);
        lemma_closed_step(
            handled_prefix(statements, infos, locals, params, n - 1)->Ok_0,
            locals,
            statements[n - 1],
            infos[n - 1],
        );
    }
}

/// After a `return` nothing is written until the next label, whatever the
/// lookup returns: in the output a `return` is the last statement or a label
/// follows it.
pub proof fn lemma_nothing_follows_return_but_label(
    statements: Seq<StatementView>,
    infos: Seq<LibfuncInfoView>,
    locals: LocalsView,
    params: Seq<VarId>,
)
    requires
        add_store_statements_with(statements, infos, locals, params) is Ok,
    ensures
        returns_end_blocks(add_store_statements_with(statements, infos, locals, params)->Ok_0),
{
    lemma_closed_prefix(statements, infos, locals, params, statements.len() as int);
}

/// Whether a parameter with the signature `param` takes an argument in the
/// placement `state` as it is.
pub open spec fn acceptable(state: VarState, param: ParamSignature) -> bool {
    state matches VarState::Deferred { info } ==> param.allows(info.kind)
}

/// An argument is passed in a placement that its parameter accepts: where
/// the parameter does not take a deferred value of the argument's kind, the
/// value has been stored.
pub proof fn lemma_prepared_argument_is_acceptable(
    e: Emission,
    locals: LocalsView,
    arg: VarId,
    param: ParamSignature,
)
    ensures
        e.prepare_libfunc_argument(locals, arg, param) matches Ok((_, state)) ==> acceptable(
            state,
            param,
        ),
{
}

/// The arguments from `i` on are passed in placements that their parameters
/// accept.
proof fn lemma_prepared_arguments_from(
    e: Emission,
    locals: LocalsView,
    args: Seq<VarId>,
    params: Seq<ParamSignature>,
    arg_states: Seq<VarState>,
    i: int,
)
    requires
        0 <= i <= args.len(),
        arg_states.len() == i,
        forall|j: int| 0 <= j < i ==> acceptable(#[trigger] arg_states[j], params[j]),
    ensures
        e.prepare_libfunc_arguments_from(locals, args, params, arg_states, i) matches Ok(
            (_, states),
        ) ==> states.len() == args.len() && forall|j: int|
            0 <= j < args.len() ==> acceptable(#[trigger] states[j], params[j]),
    decreases args.len() - i,
{
    if i < args.len() {
        match e.prepare_libfunc_argument(locals, args[i], params[i]) {
            Ok((next, arg_state)) => {
                lemma_prepared_arguments_from(
                    next.remove(args[i]),
                    locals,
                    args,
                    params,
                    arg_states.push(arg_state),
                    i + 1,
                );
            },
            Err(_) => {},
        }
    }
}

/// Every argument of an invocation is passed in a placement that its
/// parameter accepts.
pub proof fn lemma_prepared_arguments_are_acceptable(
    e: Emission,
    locals: LocalsView,
    args: Seq<VarId>,
    params: Seq<ParamSignature>,
)
    ensures
        e.prepare_libfunc_arguments(locals, args, params) matches Ok((_, states)) ==> states.len()
            == args.len() && forall|j: int|
            0 <= j < args.len() ==> acceptable(#[trigger] states[j], params[j]),
{
    if args.len() == params.len() {
        lemma_prepared_arguments_from(e, locals, args, params, Seq::empty(), 0);
    }
}

/// Placement is a function of its input: two runs on the same statements,
/// signatures, local variables and parameters write the same statements.
/// On an input that placement leaves as it is, a second run changes nothing.
pub proof fn lemma_fixed_point_is_stable(
    statements: Seq<StatementView>,
    libfunc_info: spec_fn(LibfuncId) -> LibfuncInfoView,
    locals: LocalsView,
    params: Seq<VarId>,
)
    requires
        add_store_statements_view(statements, libfunc_info, locals, params) == Ok::<
            Seq<StatementView>,
            StoreError,
        >(statements),
    ensures
        add_store_statements_view(
            add_store_statements_view(statements, libfunc_info, locals, params)->Ok_0,
            libfunc_info,
            locals,
            params,
        ) == add_store_statements_view(statements, libfunc_info, locals, params),
{
}

/// Marked statements are no more than statements, and as many only where
/// all are marked.
proof fn lemma_picked_len(statements: Seq<StatementView>, keep: Seq<bool>)
    requires
        keep.len() == statements.len(),
    ensures
        picked(statements, keep).len() <= statements.len(),
        picked(statements, keep).len() == statements.len() ==> picked(statements, keep)
            == statements,
    decreases statements.len(),
{
    if statements.len() > 0 {
        lemma_picked_len(statements.drop_last(), keep.drop_last());
        if keep.last() && picked(statements, keep).len() == statements.len() {
            assert(statements.drop_last().push(statements.last()) =~= statements);
        }
    } else {
        assert(picked(statements, keep) =~= statements);
    }
}

/// Where placement adds nothing, it writes its input: an output as long as
/// the input without its push requests is that input.
pub proof fn lemma_nothing_added_is_input(
    statements: Seq<StatementView>,
    libfunc_info: spec_fn(LibfuncId) -> LibfuncInfoView,
    locals: LocalsView,
    params: Seq<VarId>,
)
    requires
        add_store_statements_view(statements, libfunc_info, locals, params) is Ok,
        add_store_statements_view(statements, libfunc_info, locals, params)->Ok_0.len()
            == without_push_values(statements).len(),
    ensures
        add_store_statements_view(statements, libfunc_info, locals, params)->Ok_0
            == without_push_values(statements),
{
    let output = add_store_statements_view(statements, libfunc_info, locals, params)->Ok_0;
    lemma_output_preserves_input(statements, infos_of(statements, libfunc_info), locals, params);
    let keep = choose|keep: Seq<bool>| marks_input(statements, output, keep);
    lemma_picked_len(output, keep);
}

/// Marked statements that are no push requests, among statements of which
/// the unmarked ones are store instructions, leave no push request.
proof fn lemma_no_push_values(statements: Seq<StatementView>, keep: Seq<bool>)
    requires
        keep.len() == statements.len(),
        forall|j: int|
            0 <= j < statements.len() && !keep[j] ==> is_store_instruction(#[trigger] statements[j]),
        forall|j: int|
            0 <= j < picked(statements, keep).len() ==> !((#[trigger] picked(
                statements,
                keep,
            )[j]) is PushValues),
    ensures
        forall|j: int| 0 <= j < statements.len() ==> !((#[trigger] statements[j]) is PushValues),
    decreases statements.len(),
{
    if statements.len() > 0 {
        let front = statements.drop_last();
        let front_keep = keep.drop_last();
        let chosen = picked(statements, keep);
        assert forall|j: int| 0 <= j < picked(front, front_keep).len() implies !((
        #[trigger] picked(front, front_keep)[j]) is PushValues) by {
            assert(chosen[j] == picked(front, front_keep)[j]);
        }
        lemma_no_push_values(front, front_keep);
        assert forall|j: int| 0 <= j < statements.len() implies !((
        #[trigger] statements[j]) is PushValues) by {
            if j < front.len() {
                assert(statements[j] == front[j]);
            } else if keep.last() {
                assert(chosen[chosen.len() - 1] == statements[j]);
            }
        }
    }
}

/// Placement carries out every push request: its output holds none.
pub proof fn lemma_output_has_no_push_values(
    statements: Seq<StatementView>,
    libfunc_info: spec_fn(LibfuncId) -> LibfuncInfoView,
    locals: LocalsView,
    params: Seq<VarId>,
)
    requires
        add_store_statements_view(statements, libfunc_info, locals, params) is Ok,
    ensures
        without_push_values(
            add_store_statements_view(statements, libfunc_info, locals, params)->Ok_0,
        ) == add_store_statements_view(statements, libfunc_info, locals, params)->Ok_0,
{
    let output = add_store_statements_view(statements, libfunc_info, locals, params)->Ok_0;
    lemma_output_preserves_input(statements, infos_of(statements, libfunc_info), locals, params);
    let keep = choose|keep: Seq<bool>| marks_input(statements, output, keep);
    let no_push = |statement: StatementView| !(statement is PushValues);
    assert forall|j: int| 0 <= j < picked(output, keep).len() implies !((#[trigger] picked(
        output,
        keep,
    )[j]) is PushValues) by {
        statements.lemma_filter_pred(no_push, j);
    }
    lemma_no_push_values(output, keep);
    lemma_filter_all(output, no_push);
}

/// A filter that every element passes keeps the sequence.
proof fn lemma_filter_all<A>(s: Seq<A>, pred: spec_fn(A) -> bool)
    requires
        forall|j: int| 0 <= j < s.len() ==> pred(#[trigger] s[j]),
    ensures
        s.filter(pred) == s,
    decreases s.len(),
{
    reveal(Seq::filter);
    if s.len() > 0 {
        let front = s.drop_last();
        assert forall|j: int| 0 <= j < front.len() implies pred(#[trigger] front[j]) by {
            assert(front[j] == s[j]);
        }
        lemma_filter_all(front, pred);
        assert(front.push(s.last()) =~= s);
    } else {
        assert(s.filter(pred) =~= s);
    }
}

/// A second run that adds nothing changes nothing: where placement, applied
/// to its own output, writes as many statements as it is given, it writes
/// that output again.
pub proof fn lemma_second_run_that_adds_nothing(
    statements: Seq<StatementView>,
    libfunc_info: spec_fn(LibfuncId) -> LibfuncInfoView,
    locals: LocalsView,
    params: Seq<VarId>,
)
    requires
        add_store_statements_view(statements, libfunc_info, locals, params) is Ok,
        ({
            let output = add_store_statements_view(statements, libfunc_info, locals, params)->Ok_0;
            let again = add_store_statements_view(output, libfunc_info, locals, params);
            again is Ok && again->Ok_0.len() == output.len()
        }),
    ensures
        ({
            let output = add_store_statements_view(statements, libfunc_info, locals, params)->Ok_0;
            add_store_statements_view(output, libfunc_info, locals, params) == Ok::<
                Seq<StatementView>,
                StoreError,
            >(output)
        }),
{
    let output = add_store_statements_view(statements, libfunc_info, locals, params)->Ok_0;
    lemma_output_has_no_push_values(statements, libfunc_info, locals, params);
    lemma_nothing_added_is_input(output, libfunc_info, locals, params);
}

/// A placement in which a branch cannot lose the value of a variable that
/// is marked local: in the frame, or a literal, which is written anew where
/// it is needed.
pub open spec fn survives_branch(state: VarState) -> bool {
    ||| state is LocalVar
    ||| state matches VarState::Deferred { info } && info.kind is Const
}

/// The type with which a variable in the placement `state` is stored.
pub open spec fn stored_type(state: VarState) -> TypeId {
    match state {
        VarState::TempVar { ty } => ty,
        VarState::Deferred { info } => info.ty,
        VarState::LocalVar => 0,
    }
}

/// Whether `statements` holds `statement` at or after the place `from`.
pub open spec fn written_since(
    statements: Seq<StatementView>,
    from: int,
    statement: StatementView,
) -> bool {
    exists|k: int| from <= k < statements.len() && #[trigger] statements[k] == statement
}

/// What holds while the variables of `snapshot` are saved one after the
/// other, before the variable at the place `i`: the variables before it that
/// are marked local survive a branch, and for each of them that did not lie in
/// the frame a `store_local` has been written since `base`; the others are as
/// in `snapshot`.
pub open spec fn saved_up_to(
    e: Emission,
    locals: LocalsView,
    snapshot: Seq<(VarId, VarState)>,
    base: int,
    i: int,
) -> bool {
    &&& distinct_keys(snapshot)
    &&& distinct_keys(e.state.variables)
    &&& 0 <= base <= e.result.len()
    &&& forall|var: VarId| has_key(e.state.variables, var) == has_key(snapshot, var)
    &&& forall|j: int|
        i <= j < snapshot.len() ==> lookup(e.state.variables, (#[trigger] snapshot[j]).0) == Some(
            snapshot[j].1,
        )
    &&& forall|j: int|
        0 <= j < i && j < snapshot.len() && has_key(locals, (#[trigger] snapshot[j]).0) ==> {
            &&& lookup(e.state.variables, snapshot[j].0) is Some
            &&& survives_branch(lookup(e.state.variables, snapshot[j].0)->Some_0)
            &&& !survives_branch(snapshot[j].1) ==> written_since(
                e.result,
                base,
                store_local_view(
                    snapshot[j].0,
                    lookup(locals, snapshot[j].0)->Some_0,
                    stored_type(snapshot[j].1),
                ),
            )
        }
}

/// Saving one variable keeps `saved_up_to`.
proof fn lemma_saved_step(
    e: Emission,
    locals: LocalsView,
    snapshot: Seq<(VarId, VarState)>,
    base: int,
    i: int,
)
    requires
        0 <= i < snapshot.len(),
        saved_up_to(e, locals, snapshot, base, i),
    ensures
        saved_up_to(e.store_possibly_lost(locals, snapshot[i]), locals, snapshot, base, i + 1),
{
    let (var, state) = snapshot[i];
    let vars = e.state.variables;
    assert(lookup(vars, snapshot[i].0) == Some(state));
    lemma_swap_removed(vars, var);
    let removed = crate::ordered_map::swap_removed(vars, var);
    let next = e.store_possibly_lost(locals, snapshot[i]);
    let next_vars = next.state.variables;
    match state {
        VarState::TempVar { ty } => {
            lemma_inserted(removed, var, VarState::LocalVar);
        },
        VarState::Deferred { info } => {
            lemma_inserted(removed, var, VarState::LocalVar);
            lemma_inserted(removed, var, VarState::TempVar { ty: info.ty });
        },
        VarState::LocalVar => {},
    }
    assert(has_key(vars, var));
    // Only the placement of `var` changes.
    assert forall|other: VarId| other != var implies lookup(next_vars, other) == lookup(
        vars,
        other,
    ) && has_key(next_vars, other) == has_key(vars, other) by {}
    assert(has_key(next_vars, var));
    assert forall|k: int| 0 <= k < e.result.len() implies #[trigger] next.result[k]
        == e.result[k] by {}
    assert forall|j: int|
        i + 1 <= j < snapshot.len() implies lookup(next_vars, (#[trigger] snapshot[j]).0) == Some(
        snapshot[j].1,
    ) by {
        assert(snapshot[i].0 != snapshot[j].0);
    }
    assert forall|j: int|
        0 <= j < i + 1 && j < snapshot.len() && has_key(
            locals,
            (#[trigger] snapshot[j]).0,
        ) implies {
        &&& lookup(next_vars, snapshot[j].0) is Some
        &&& survives_branch(lookup(next_vars, snapshot[j].0)->Some_0)
        &&& !survives_branch(snapshot[j].1) ==> written_since(
            next.result,
            base,
            store_local_view(
                snapshot[j].0,
                lookup(locals, snapshot[j].0)->Some_0,
                stored_type(snapshot[j].1),
            ),
        )
    } by {
        if j < i {
            assert(snapshot[j].0 != snapshot[i].0);
            if !survives_branch(snapshot[j].1) {
                let wanted = store_local_view(
                    snapshot[j].0,
                    lookup(locals, snapshot[j].0)->Some_0,
                    stored_type(snapshot[j].1),
                );
                let k = choose|k: int|
                    base <= k < e.result.len() && #[trigger] e.result[k] == wanted;
                assert(next.result[k] == wanted);
            }
        } else {
            if !survives_branch(state) {
                let wanted = store_local_view(
                    var,
                    lookup(locals, var)->Some_0,
                    stored_type(state),
                );
                assert(next.result[e.result.len() as int] == wanted);
            }
        }
    }
}

/// Saving the variables from `i` on keeps `saved_up_to`, up to the end.
proof fn lemma_saved_run(
    e: Emission,
    locals: LocalsView,
    snapshot: Seq<(VarId, VarState)>,
    base: int,
    i: int,
)
    requires
        0 <= i <= snapshot.len(),
        saved_up_to(e, locals, snapshot, base, i),
    ensures
        saved_up_to(
            e.store_all_possibly_lost_from(locals, snapshot, i),
            locals,
            snapshot,
            base,
            snapshot.len() as int,
        ),
    decreases snapshot.len() - i,
{
    if i < snapshot.len() {
        lemma_saved_step(e, locals, snapshot, base, i);
        lemma_saved_run(
            e.store_possibly_lost(locals, snapshot[i]),
            locals,
            snapshot,
            base,
            i + 1,
        );
    }
}

/// Before an invocation with more than one branch, every live variable that
/// is marked local is made to survive the branch: afterwards it lies in the
/// frame, unless it is a literal, and where it did not survive before, a
/// `store_local` for it has been written.
pub proof fn lemma_locals_are_stored_before_branches(e: Emission, locals: LocalsView)
    requires
        distinct_keys(e.state.variables),
    ensures
        ({
            let stored = e.store_all_possibly_lost_variables(locals);
            forall|var: VarId| #[trigger]
                has_key(stored.state.variables, var) && has_key(locals, var) ==> {
                    &&& has_key(e.state.variables, var)
                    &&& survives_branch(lookup(stored.state.variables, var)->Some_0)
                    &&& !survives_branch(lookup(e.state.variables, var)->Some_0) ==> written_since(
                        stored.result,
                        e.result.len() as int,
                        store_local_view(
                            var,
                            lookup(locals, var)->Some_0,
                            stored_type(lookup(e.state.variables, var)->Some_0),
                        ),
                    )
                }
        }),
{
    let snapshot = e.state.variables;
    let base = e.result.len() as int;
    assert(saved_up_to(e, locals, snapshot, base, 0)) by {
        assert forall|j: int| 0 <= j < snapshot.len() implies lookup(
            snapshot,
            (#[trigger] snapshot[j]).0,
        ) == Some(snapshot[j].1) by {
            lemma_key_index_unique(snapshot, snapshot[j].0, j);
        }
    }
    lemma_saved_run(e, locals, snapshot, base, 0);
    let stored = e.store_all_possibly_lost_variables(locals);
    assert forall|var: VarId| #[trigger]
        has_key(stored.state.variables, var) && has_key(locals, var) implies {
        &&& has_key(e.state.variables, var)
        &&& survives_branch(lookup(stored.state.variables, var)->Some_0)
        &&& !survives_branch(lookup(e.state.variables, var)->Some_0) ==> written_since(
            stored.result,
            base,
            store_local_view(
                var,
                lookup(locals, var)->Some_0,
                stored_type(lookup(e.state.variables, var)->Some_0),
            ),
        )
    } by {
        assert(has_key(snapshot, var));
        let j = key_index(snapshot, var);
        assert(snapshot[j].0 == var);
        lemma_key_index_unique(snapshot, var, j);
    }
}

} // verus!
