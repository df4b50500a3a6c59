//! The insertion-ordered hash map of `cairo_lang_utils`, as far as placement
//! uses it. Nothing in this file is proved: each contract states what the
//! map's documentation promises, over the sequence of pairs that the map
//! holds, in iteration order.

use vstd::prelude::*;
use cairo_lang_utils::ordered_hash_map::OrderedHashMap;
use std::hash::RandomState;
use crate::ordered_map::{inserted, lookup, swap_removed};
use crate::program::{LabelId, VarId};
use crate::state::{State, VarState};

verus! {

/// `cairo_lang_utils::ordered_hash_map::OrderedHashMap`, a hash map that is
/// walked in insertion order.
#[verifier::external_type_specification]
#[verifier::external_body]
#[verifier::reject_recursive_types(Key)]
#[verifier::reject_recursive_types(Value)]
#[verifier::reject_recursive_types(BH)]
pub struct ExOrderedHashMap<Key, Value, BH>(OrderedHashMap<Key, Value, BH>);

/// The variables that are to be stored in the frame, each with the frame cell
/// allocated for it.
pub type LocalVariables = OrderedHashMap<VarId, VarId, RandomState>;

/// The placement of each live variable.
pub type VariableMap = OrderedHashMap<VarId, VarState, RandomState>;

/// The state recorded for each label that a branch seen so far targets.
pub type FutureStates = OrderedHashMap<LabelId, State, RandomState>;

/// The pairs that a map of local variables holds, in iteration order.
pub uninterp spec fn local_entries(m: OrderedHashMap<VarId, VarId, RandomState>) -> Seq<
    (VarId, VarId),
>;

/// The pairs that a map of variable placements holds, in iteration order.
pub uninterp spec fn variable_entries(m: OrderedHashMap<VarId, VarState, RandomState>) -> Seq<
    (VarId, VarState),
>;

/// The pairs that a map of recorded states holds, in iteration order.
pub uninterp spec fn future_entries(m: OrderedHashMap<LabelId, State, RandomState>) -> Seq<
    (LabelId, State),
>;

/// `IndexMap::get` on a map of local variables: the frame cell allocated for
/// `var`, if `var` is a key of the map.
#[verifier::external_body]
pub(crate) fn local_slot(m: &LocalVariables, var: VarId) -> (r: Option<VarId>)
    ensures
        r == lookup(local_entries(*m), var),
{
    m.get(&var).copied()
}

/// `OrderedHashMap::default`: a map that holds nothing.
#[verifier::external_body]
pub(crate) fn variables_new() -> (m: VariableMap)
    ensures
        variable_entries(m) == Seq::<(VarId, VarState)>::empty(),
{
    OrderedHashMap::default()
}

/// `IndexMap::get`: the placement stored under `var`, if `var` is a key.
#[verifier::external_body]
pub(crate) fn variables_get(m: &VariableMap, var: VarId) -> (r: Option<VarState>)
    ensures
        r == lookup(variable_entries(*m), var),
{
    m.get(&var).copied()
}

/// `IndexMap::insert`: under a key that is present the value is replaced where
/// the key stands; a new key is added last.
#[verifier::external_body]
pub(crate) fn variables_insert(m: &mut VariableMap, var: VarId, state: VarState)
    ensures
        variable_entries(*final(m)) == inserted(variable_entries(*old(m)), var, state),
{
    m.insert(var, state);
}

/// `IndexMap::swap_remove`: the pair of `var` leaves, the last pair takes its
/// place, and the value that was stored under `var` is returned.
#[verifier::external_body]
pub(crate) fn variables_swap_remove(m: &mut VariableMap, var: VarId) -> (r: Option<VarState>)
    ensures
        r == lookup(variable_entries(*old(m)), var),
        variable_entries(*final(m)) == swap_removed(variable_entries(*old(m)), var),
{
    m.swap_remove(&var)
}

/// `OrderedHashMap::clone`: a map with the same pairs in the same order.
#[verifier::external_body]
pub(crate) fn variables_clone(m: &VariableMap) -> (r: VariableMap)
    ensures
        variable_entries(r) == variable_entries(*m),
{
    m.clone()
}

/// `IndexMap::iter`: the pairs of the map in iteration order.
#[verifier::external_body]
pub(crate) fn variables_to_vec(m: &VariableMap) -> (r: Vec<(VarId, VarState)>)
    ensures
        r@ == variable_entries(*m),
{
    m.iter().map(|(var, state)| (*var, *state)).collect()
}

/// `OrderedHashMap::default`: a map that holds nothing.
#[verifier::external_body]
pub(crate) fn future_states_new() -> (m: FutureStates)
    ensures
        future_entries(m) == Seq::<(LabelId, State)>::empty(),
{
    OrderedHashMap::default()
}

/// `IndexMap::insert`: under a key that is present the value is replaced where
/// the key stands; a new key is added last.
#[verifier::external_body]
pub(crate) fn future_states_insert(m: &mut FutureStates, label: LabelId, state: State)
    ensures
        future_entries(*final(m)) == inserted(future_entries(*old(m)), label, state),
{
    m.insert(label, state);
}

/// `IndexMap::swap_remove`: the pair of `label` leaves, the last pair takes its
/// place, and the state that was stored under `label` is returned.
#[verifier::external_body]
pub(crate) fn future_states_swap_remove(m: &mut FutureStates, label: LabelId) -> (r: Option<
    State,
>)
    ensures
        r == lookup(future_entries(*old(m)), label),
        future_entries(*final(m)) == swap_removed(future_entries(*old(m)), label),
{
    m.swap_remove(&label)
}

/// `OrderedHashMap::is_empty`: whether the map holds no pair.
#[verifier::external_body]
pub(crate) fn future_states_is_empty(m: &FutureStates) -> (r: bool)
    ensures
        r == (future_entries(*m).len() == 0),
{
    m.is_empty()
}

} // verus!
