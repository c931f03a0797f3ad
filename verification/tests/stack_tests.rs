//! Tests of the bounded evaluation stack.

use ps_function::PostScriptStack;
use ps_function::PostScriptStackError;
use ps_function::Value;

fn v(x: f64) -> Value {
    Value { bits: x.to_bits() }
}

fn seeded(values: &[f64]) -> PostScriptStack {
    let vec: Vec<Value> = values.iter().map(|x| v(*x)).collect();
    PostScriptStack::new_from_initial_stack(vec)
}

/// Pops every value and returns them bottom-first.
fn drain(stack: &mut PostScriptStack) -> Vec<f64> {
    let mut out: Vec<f64> = Vec::new();
    while stack.len() > 0 {
        let val = stack.pop().unwrap();
        out.push(f64::from_bits(val.bits));
    }
    out.reverse();
    out
}

#[test]
fn push_pop_lifo() {
    let mut s = PostScriptStack::new();
    assert_eq!(s.len(), 0);
    assert_eq!(s.push(v(1.0)), Ok(()));
    assert_eq!(s.push(v(2.0)), Ok(()));
    assert_eq!(s.push(v(3.0)), Ok(()));
    assert_eq!(s.len(), 3);
    assert_eq!(s.pop(), Ok(v(3.0)));
    assert_eq!(s.pop(), Ok(v(2.0)));
    assert_eq!(s.pop(), Ok(v(1.0)));
    assert_eq!(s.len(), 0);
}

#[test]
fn pop_empty_underflows_and_leaves_stack_unchanged() {
    let mut s = PostScriptStack::new();
    assert_eq!(s.pop(), Err(PostScriptStackError::StackUnderflow));
    assert_eq!(s.pop(), Err(PostScriptStackError::StackUnderflow));
    assert_eq!(s.len(), 0);
    let mut t = seeded(&[4.0]);
    assert_eq!(t.pop(), Ok(v(4.0)));
    assert_eq!(t.pop(), Err(PostScriptStackError::StackUnderflow));
    assert_eq!(t.len(), 0);
}

#[test]
fn push_at_capacity_overflows_and_leaves_stack_unchanged() {
    let mut s = PostScriptStack::new();
    for i in 0..100 {
        assert_eq!(s.push(v(i as f64)), Ok(()));
    }
    assert_eq!(s.len(), 100);
    assert_eq!(s.push(v(123.0)), Err(PostScriptStackError::StackOverflow));
    assert_eq!(s.len(), 100);
    assert_eq!(s.pop(), Ok(v(99.0)));
}

#[test]
fn copy_duplicates_top_values_in_order() {
    let mut s = seeded(&[1.0, 2.0, 3.0]);
    assert_eq!(s.copy(2), Ok(()));
    assert_eq!(drain(&mut s), vec![1.0, 2.0, 3.0, 2.0, 3.0]);
}

#[test]
fn copy_zero_is_a_no_op() {
    let mut s = seeded(&[1.0, 2.0]);
    assert_eq!(s.copy(0), Ok(()));
    assert_eq!(drain(&mut s), vec![1.0, 2.0]);
}

#[test]
fn copy_validates_capacity_before_mutating() {
    let values: Vec<f64> = (0..99).map(|i| i as f64).collect();
    let mut s = seeded(&values);
    assert_eq!(s.copy(2), Err(PostScriptStackError::StackOverflow));
    assert_eq!(s.len(), 99);
}

#[test]
fn copy_more_than_held_underflows() {
    let mut s = seeded(&[1.0]);
    assert_eq!(s.copy(2), Err(PostScriptStackError::StackUnderflow));
    assert_eq!(s.len(), 1);
}

#[test]
fn index_pushes_copy_of_value_below_top() {
    let mut s = seeded(&[10.0, 20.0, 30.0]);
    assert_eq!(s.index(0), Ok(()));
    assert_eq!(s.pop(), Ok(v(30.0)));
    assert_eq!(s.index(2), Ok(()));
    assert_eq!(drain(&mut s), vec![10.0, 20.0, 30.0, 10.0]);
}

#[test]
fn index_beyond_depth_underflows() {
    let mut s = seeded(&[1.0]);
    assert_eq!(s.index(1), Err(PostScriptStackError::StackUnderflow));
    let mut t = PostScriptStack::new();
    assert_eq!(t.index(0), Err(PostScriptStackError::StackUnderflow));
}

#[test]
fn index_at_capacity_overflows() {
    let values: Vec<f64> = (0..100).map(|i| i as f64).collect();
    let mut s = seeded(&values);
    assert_eq!(s.index(0), Err(PostScriptStackError::StackOverflow));
    assert_eq!(s.len(), 100);
}

#[test]
fn roll_rotation_matches_reference_order() {
    // [a, b, c] with c on top, rolled by one: c moves to the bottom of the
    // rolled span, so the order becomes [c, a, b].
    let mut s = seeded(&[1.0, 2.0, 3.0]);
    assert_eq!(s.roll(3, 1), Ok(()));
    assert_eq!(drain(&mut s), vec![3.0, 1.0, 2.0]);
}

#[test]
fn roll_is_periodic_in_the_distance() {
    let mut a = seeded(&[1.0, 2.0, 3.0]);
    let mut b = seeded(&[1.0, 2.0, 3.0]);
    assert_eq!(a.roll(3, 1), Ok(()));
    assert_eq!(b.roll(3, 4), Ok(()));
    assert_eq!(drain(&mut a), drain(&mut b));
    let mut c = seeded(&[1.0, 2.0, 3.0]);
    assert_eq!(c.roll(3, 0), Ok(()));
    assert_eq!(drain(&mut c), vec![1.0, 2.0, 3.0]);
}

#[test]
fn roll_negative_distance_rotates_the_other_way() {
    let mut s = seeded(&[1.0, 2.0, 3.0]);
    assert_eq!(s.roll(3, -1), Ok(()));
    assert_eq!(drain(&mut s), vec![2.0, 3.0, 1.0]);
}

#[test]
fn roll_of_partial_span_keeps_the_rest() {
    let mut s = seeded(&[9.0, 1.0, 2.0, 3.0]);
    assert_eq!(s.roll(3, 1), Ok(()));
    assert_eq!(drain(&mut s), vec![9.0, 3.0, 1.0, 2.0]);
}

#[test]
fn roll_beyond_depth_underflows() {
    let mut s = seeded(&[1.0, 2.0]);
    assert_eq!(s.roll(3, 1), Err(PostScriptStackError::StackUnderflow));
    assert_eq!(drain(&mut s), vec![1.0, 2.0]);
}

#[test]
fn roll_empty_span_is_a_no_op() {
    let mut s = seeded(&[1.0, 2.0]);
    assert_eq!(s.roll(0, 5), Ok(()));
    assert_eq!(drain(&mut s), vec![1.0, 2.0]);
}

#[test]
fn copy_one_then_pop_restores_the_stack() {
    let mut s = seeded(&[5.0, 7.0]);
    assert_eq!(s.copy(1), Ok(()));
    assert_eq!(s.pop(), Ok(v(7.0)));
    assert_eq!(drain(&mut s), vec![5.0, 7.0]);
}

#[test]
fn initial_stack_seeds_bottom_first() {
    let mut s = seeded(&[1.0, 2.0, 3.0]);
    assert_eq!(s.pop(), Ok(v(3.0)));
    assert_eq!(s.pop(), Ok(v(2.0)));
    assert_eq!(s.pop(), Ok(v(1.0)));
}
