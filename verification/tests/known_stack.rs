use store_variables::known_stack::KnownStack;
use store_variables::program::PushValue;

fn values(vars: &[u64]) -> Vec<PushValue> {
    vars.iter().map(|var| PushValue { var: *var, var_on_stack: var + 100, ty: 1, dup: false }).collect()
}

fn stack(vars: &[u64]) -> KnownStack {
    let mut stack = KnownStack::new();
    for var in vars {
        stack.push(*var);
    }
    stack
}

#[test]
fn nothing_is_on_a_new_stack() {
    let stack = KnownStack::new();
    assert_eq!(stack.get(1), None);
    assert_eq!(stack.compute_on_stack_prefix_size(&values(&[1, 2])), 0);
    assert_eq!(stack.compute_on_stack_prefix_size(&values(&[])), 0);
}

#[test]
fn push_gives_the_next_cell() {
    let stack = stack(&[7, 8, 9]);
    assert_eq!(stack.get(7), Some(0));
    assert_eq!(stack.get(8), Some(1));
    assert_eq!(stack.get(9), Some(2));
    assert_eq!(stack.get(10), None);
}

#[test]
fn push_of_a_known_variable_moves_it_to_the_top() {
    let stack = stack(&[7, 8, 7]);
    assert_eq!(stack.get(7), Some(2));
    assert_eq!(stack.get(8), Some(1));
    assert_eq!(stack.compute_on_stack_prefix_size(&values(&[8, 7])), 2);
}

#[test]
fn prefix_must_end_at_the_top() {
    let stack = stack(&[1, 2, 3]);
    assert_eq!(stack.compute_on_stack_prefix_size(&values(&[1, 2, 3])), 3);
    assert_eq!(stack.compute_on_stack_prefix_size(&values(&[2, 3])), 2);
    assert_eq!(stack.compute_on_stack_prefix_size(&values(&[3])), 1);
    assert_eq!(stack.compute_on_stack_prefix_size(&values(&[3, 4, 5])), 1);
    assert_eq!(stack.compute_on_stack_prefix_size(&values(&[2, 3, 4])), 2);
    // Below the top, and the request is too short to reach it.
    assert_eq!(stack.compute_on_stack_prefix_size(&values(&[1, 2])), 0);
    assert_eq!(stack.compute_on_stack_prefix_size(&values(&[2])), 0);
    // On the stack, in another order.
    assert_eq!(stack.compute_on_stack_prefix_size(&values(&[1, 3, 2])), 0);
    assert_eq!(stack.compute_on_stack_prefix_size(&values(&[2, 4])), 0);
    // Not on the stack.
    assert_eq!(stack.compute_on_stack_prefix_size(&values(&[4, 3])), 0);
}

#[test]
fn removed_variable_breaks_the_prefix() {
    let mut stack = stack(&[1, 2, 3]);
    stack.remove_variable(2);
    assert_eq!(stack.get(2), None);
    assert_eq!(stack.get(1), Some(0));
    assert_eq!(stack.get(3), Some(2));
    assert_eq!(stack.compute_on_stack_prefix_size(&values(&[1, 2, 3])), 0);
    assert_eq!(stack.compute_on_stack_prefix_size(&values(&[3])), 1);
    stack.remove_variable(5);
    assert_eq!(stack.get(3), Some(2));
}

#[test]
fn another_name_lies_in_the_same_cell() {
    let mut stack = stack(&[1, 2]);
    stack.clone_if_on_stack(1, 5);
    assert_eq!(stack.get(5), Some(0));
    assert_eq!(stack.get(1), Some(0));
    assert_eq!(stack.compute_on_stack_prefix_size(&values(&[5, 2])), 2);
    stack.clone_if_on_stack(9, 6);
    assert_eq!(stack.get(6), None);
}

#[test]
fn clear_forgets_everything() {
    let mut stack = stack(&[1, 2]);
    stack.clear();
    assert_eq!(stack.get(1), None);
    assert_eq!(stack.get(2), None);
    stack.push(3);
    assert_eq!(stack.get(3), Some(0));
}

#[test]
fn duplicate_of_a_stack_is_independent() {
    let first = stack(&[1, 2]);
    let mut copy = first.duplicate();
    copy.push(3);
    assert_eq!(copy.get(3), Some(2));
    assert_eq!(copy.get(1), Some(0));
    assert_eq!(first.get(3), None);
    assert_eq!(first.compute_on_stack_prefix_size(&values(&[1, 2])), 2);
}

#[test]
fn merge_keeps_the_common_top() {
    let a = stack(&[1, 2, 3]);
    let b = stack(&[2, 3]);
    let merged = a.merge_with(&b);
    assert_eq!(merged.get(1), None);
    assert_eq!(merged.get(2), Some(1));
    assert_eq!(merged.get(3), Some(2));
    assert_eq!(merged.compute_on_stack_prefix_size(&values(&[2, 3])), 2);
    let merged = b.merge_with(&a);
    assert_eq!(merged.get(2), Some(0));
    assert_eq!(merged.get(3), Some(1));
    assert_eq!(merged.compute_on_stack_prefix_size(&values(&[2, 3])), 2);
}

#[test]
fn merge_drops_what_lies_at_another_depth() {
    let a = stack(&[1, 2, 3]);
    let b = stack(&[2, 1, 3]);
    let merged = a.merge_with(&b);
    assert_eq!(merged.get(1), None);
    assert_eq!(merged.get(2), None);
    assert_eq!(merged.get(3), Some(2));
}

#[test]
fn merge_drops_what_lies_below_a_gap() {
    let a = stack(&[1, 2, 3]);
    let b = stack(&[1, 8, 9]);
    let merged = a.merge_with(&b);
    assert_eq!(merged.get(1), None);
    assert_eq!(merged.get(2), None);
    assert_eq!(merged.get(3), None);
    let c = stack(&[1, 8, 3]);
    let merged = a.merge_with(&c);
    assert_eq!(merged.get(1), None);
    assert_eq!(merged.get(3), Some(2));
}

#[test]
fn merge_with_an_empty_stack_is_empty() {
    let a = stack(&[1, 2]);
    let merged = a.merge_with(&KnownStack::new());
    assert_eq!(merged.get(1), None);
    assert_eq!(merged.get(2), None);
}
