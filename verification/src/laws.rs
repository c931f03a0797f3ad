//! General laws of the stack, stated over the same models that the stack's
//! contracts use and proved once for all inputs.

use vstd::prelude::*;
use crate::value::Value;
use crate::post_script_stack::MAX_STACK_SIZE;
use crate::post_script_stack::roll_spec;

verus! {

/// The abstract effect of one `push`: the value is appended when the stack
/// is below capacity, and nothing changes otherwise (the contract of
/// `PostScriptStack::push`).
pub open spec fn push_model(s: Seq<Value>, v: Value) -> Seq<Value> {
    if s.len() < MAX_STACK_SIZE {
        s.push(v)
    } else {
        s
    }
}

/// The abstract effect of pushing each element of `vs` onto `s`, in order.
pub open spec fn push_all_model(s: Seq<Value>, vs: Seq<Value>) -> Seq<Value>
    decreases vs.len(),
{
    if vs.len() == 0 {
        s
    } else {
        push_all_model(push_model(s, vs[0]), vs.subrange(1, vs.len() as int))
    }
}

/// LIFO law: for every sequence of pushes that stays within capacity, each
/// push succeeds, the stack's length grows by exactly the number of pushed
/// values, and the next pop returns the most recently pushed value and
/// leaves precisely the values pushed before it.
pub proof fn lemma_push_sequence_lifo(s: Seq<Value>, vs: Seq<Value>)
    requires
        s.len() + vs.len() <= MAX_STACK_SIZE,
    ensures
        push_all_model(s, vs) == s + vs,
        push_all_model(s, vs).len() == s.len() + vs.len(),
        vs.len() > 0 ==> push_all_model(s, vs).last() == vs.last() && push_all_model(
            s,
            vs,
        ).drop_last() == s + vs.drop_last(),
    decreases vs.len(),
{
    if vs.len() == 0 {
        assert(s + vs =~= s);
    } else {
        let rest = vs.subrange(1, vs.len() as int);
        lemma_push_sequence_lifo(s.push(vs[0]), rest);
        assert(s.push(vs[0]) + rest =~= s + vs);
        assert((s + vs).last() == vs.last());
        assert((s + vs).drop_last() =~= s + vs.drop_last());
    }
}

/// Periodicity law of `roll`: rotating the top `n` elements by `j` and by
/// `j + n` yields the same order, and rotating by zero is a no-op.
pub proof fn lemma_roll_periodicity(s: Seq<Value>, n: int, j: int)
    requires
        0 <= n <= s.len(),
    ensures
        roll_spec(s, n, j) == roll_spec(s, n, j + n),
        roll_spec(s, n, 0) == s,
{
    if n > 0 {
        assert((j + n) % n == j % n) by {
            vstd::arithmetic::div_mod::lemma_mod_multiples_vanish(1, j, n);
        }
        assert(0int % n == 0) by {
            vstd::arithmetic::div_mod::lemma_small_mod(0, n as nat);
        }
        assert(roll_spec(s, n, 0) =~= s);
    }
}

/// Round-trip law: duplicating the top value with `copy(1)` and then popping
/// restores the stack exactly as it was, and the popped value is the one
/// that was on top before the copy.
pub proof fn lemma_copy_pop_round_trip(s: Seq<Value>)
    requires
        1 <= s.len(),
        s.len() + 1 <= MAX_STACK_SIZE,
    ensures
        (s + s.subrange(s.len() - 1, s.len() as int)).last() == s.last(),
        (s + s.subrange(s.len() - 1, s.len() as int)).drop_last() == s,
{
    assert((s + s.subrange(s.len() - 1, s.len() as int)).drop_last() =~= s);
}

} // verus!

