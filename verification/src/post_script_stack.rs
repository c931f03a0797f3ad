//! The bounded evaluation stack: a fixed-capacity sequence of numeric values
//! with push, pop, duplicate and reorder operations, each failing explicitly
//! instead of corrupting state.

use vstd::prelude::*;
use crate::value::Value;

verus! {

/// Fixed capacity of the evaluation stack.
pub const MAX_STACK_SIZE: usize = 100;

/// Failure of a stack operation.  Every operation that would exceed the
/// capacity or read below an empty stack fails atomically with one of these.
#[derive(Clone, Copy, PartialEq, Eq, Structural, Debug)]
pub enum PostScriptStackError {
    /// A push or duplicate would exceed the fixed capacity.
    StackOverflow,
    /// An operation requires more values than the stack holds.
    StackUnderflow,
}

/// The bounded evaluation stack.  Its abstract state is the sequence of held
/// values, bottom first; the top of the stack is the last element.
pub struct PostScriptStack {
    stack: Vec<Value>,
}

impl View for PostScriptStack {
    type V = Seq<Value>;

    closed spec fn view(&self) -> Seq<Value> {
        self.stack@
    }
}

/// The result of rotating the top `n` elements of `s` so that the element
/// `j` positions below the top becomes the new top (`j` taken modulo `n`;
/// a negative `j` rotates the opposite way under the same modular rule).
pub open spec fn roll_spec(s: Seq<Value>, n: int, j: int) -> Seq<Value>
    recommends
        0 <= n <= s.len(),
{
    if n <= 0 {
        s
    } else {
        let len = s.len() as int;
        let k = j % n;
        s.subrange(0, len - n) + s.subrange(len - k, len) + s.subrange(len - n, len - k)
    }
}

impl PostScriptStack {
    /// An empty stack.
    pub fn new() -> (r: PostScriptStack)
        ensures
            r@ == Seq::<Value>::empty(),
    {
        PostScriptStack { stack: Vec::new() }
    }

    /// A stack pre-seeded with the given values; the first element of the
    /// vector becomes the bottom-most element.
    pub fn new_from_initial_stack(initial_stack: Vec<Value>) -> (r: PostScriptStack)
        requires
            initial_stack@.len() <= MAX_STACK_SIZE,
        ensures
            r@ == initial_stack@,
    {
        PostScriptStack { stack: initial_stack }
    }

    /// Number of values currently held.
    pub fn len(&self) -> (n: usize)
        ensures
            n == self@.len(),
    {
        self.stack.len()
    }

    /// Appends `value` on top.  Fails with `StackOverflow`, leaving the stack
    /// unchanged, when the stack already holds `MAX_STACK_SIZE` values.
    pub fn push(&mut self, value: Value) -> (r: Result<(), PostScriptStackError>)
        ensures
            old(self)@.len() < MAX_STACK_SIZE ==> r == Ok::<(), PostScriptStackError>(())
                && final(self)@ == old(self)@.push(value),
            old(self)@.len() >= MAX_STACK_SIZE ==> r == Err::<(), PostScriptStackError>(
                PostScriptStackError::StackOverflow,
            ) && final(self)@ == old(self)@,
    {
        if self.stack.len() >= MAX_STACK_SIZE {
            Err(PostScriptStackError::StackOverflow)
        } else {
            self.stack.push(value);
            Ok(())
        }
    }

    /// Removes and returns the top value.  Fails with `StackUnderflow`,
    /// leaving the stack unchanged, when the stack is empty.
    pub fn pop(&mut self) -> (r: Result<Value, PostScriptStackError>)
        ensures
            old(self)@.len() == 0 ==> r == Err::<Value, PostScriptStackError>(
                PostScriptStackError::StackUnderflow,
            ) && final(self)@ == old(self)@,
            old(self)@.len() > 0 ==> r == Ok::<Value, PostScriptStackError>(old(self)@.last())
                && final(self)@ == old(self)@.drop_last(),
    {
        match self.stack.pop() {
            Some(v) => Ok(v),
            None => Err(PostScriptStackError::StackUnderflow),
        }
    }

    /// Duplicates the top `n` values, appending them in their original order
    /// above the existing top, so the stack grows by `n`.  Fails with
    /// `StackUnderflow` when fewer than `n` values are held, and with
    /// `StackOverflow` when the resulting length would exceed the capacity;
    /// the stack is unchanged on failure.
    pub fn copy(&mut self, n: usize) -> (r: Result<(), PostScriptStackError>)
        ensures
            n > old(self)@.len() ==> r == Err::<(), PostScriptStackError>(
                PostScriptStackError::StackUnderflow,
            ) && final(self)@ == old(self)@,
            n <= old(self)@.len() && old(self)@.len() + n > MAX_STACK_SIZE ==> r == Err::<
                (),
                PostScriptStackError,
            >(PostScriptStackError::StackOverflow) && final(self)@ == old(self)@,
            n <= old(self)@.len() && old(self)@.len() + n <= MAX_STACK_SIZE ==> r == Ok::<
                (),
                PostScriptStackError,
            >(()) && final(self)@ == old(self)@ + old(self)@.subrange(
                old(self)@.len() - n,
                old(self)@.len() as int,
            ),
    {
        let len = self.stack.len();
        if n > len {
            Err(PostScriptStackError::StackUnderflow)
        } else if n > MAX_STACK_SIZE || len > MAX_STACK_SIZE - n {
            Err(PostScriptStackError::StackOverflow)
        } else {
            let lo = len - n;
            let mut i: usize = 0;
            while i < n
                invariant
                    i <= n,
                    lo == len - n,
                    n <= len,
                    len == old(self)@.len(),
                    len + n <= MAX_STACK_SIZE,
                    self.stack@.len() == len + i,
                    self.stack@ == old(self)@ + old(self)@.subrange(lo as int, lo + i),
                decreases n - i,
            {
                let v = self.stack[lo + i];
                assert(v == old(self)@[lo + i]);
                self.stack.push(v);
                proof {
                    assert(self.stack@ =~= old(self)@ + old(self)@.subrange(
                        lo as int,
                        lo + i + 1,
                    ));
                }
                i = i + 1;
            }
            proof {
                assert(self.stack@ =~= old(self)@ + old(self)@.subrange(lo as int, len as int));
            }
            Ok(())
        }
    }

    /// Pushes a copy of the value `n` positions below the current top (0 is
    /// the top itself).  Fails with `StackUnderflow` when `n` exceeds the
    /// current depth minus one, and delegates the capacity check to `push`.
    pub fn index(&mut self, n: usize) -> (r: Result<(), PostScriptStackError>)
        ensures
            n >= old(self)@.len() ==> r == Err::<(), PostScriptStackError>(
                PostScriptStackError::StackUnderflow,
            ) && final(self)@ == old(self)@,
            n < old(self)@.len() && old(self)@.len() >= MAX_STACK_SIZE ==> r == Err::<
                (),
                PostScriptStackError,
            >(PostScriptStackError::StackOverflow) && final(self)@ == old(self)@,
            n < old(self)@.len() && old(self)@.len() < MAX_STACK_SIZE ==> r == Ok::<
                (),
                PostScriptStackError,
            >(()) && final(self)@ == old(self)@.push(
                old(self)@[old(self)@.len() - 1 - n],
            ),
    {
        let len = self.stack.len();
        if n >= len {
            Err(PostScriptStackError::StackUnderflow)
        } else {
            let v = self.stack[len - 1 - n];
            self.push(v)
        }
    }

    /// Circularly rotates the top `n` elements by `j` positions, by three
    /// in-place reversals.  Fails with `StackUnderflow`, leaving the stack
    /// unchanged, when `n` exceeds the current depth.
    pub fn roll(&mut self, n: usize, j: i64) -> (r: Result<(), PostScriptStackError>)
        ensures
            n > old(self)@.len() ==> r == Err::<(), PostScriptStackError>(
                PostScriptStackError::StackUnderflow,
            ) && final(self)@ == old(self)@,
            n <= old(self)@.len() ==> r == Ok::<(), PostScriptStackError>(()) && final(self)@
                == roll_spec(old(self)@, n as int, j as int),
    {
        let len = self.stack.len();
        if n > len {
            return Err(PostScriptStackError::StackUnderflow);
        }
        if n == 0 {
            return Ok(());
        }
        let k = rotation_distance(j, n);
        let l = len - n;
        let c = l + k;
        reverse_range(&mut self.stack, l, len);
        reverse_range(&mut self.stack, l, c);
        reverse_range(&mut self.stack, c, len);
        proof {
            let s = old(self)@;
            let leni = len as int;
            let ki = k as int;
            let li = l as int;
            assert(self.stack@ =~= roll_spec(s, n as int, j as int)) by {
                assert forall|x: int| 0 <= x < leni implies self.stack@[x] == roll_spec(
                    s,
                    n as int,
                    j as int,
                )[x] by {
                    let rs = roll_spec(s, n as int, j as int);
                    assert(rs == s.subrange(0, leni - n) + s.subrange(leni - ki, leni)
                        + s.subrange(li, leni - ki));
                    if x < li {
                    } else if x < li + ki {
                        assert(rs[x] == s[leni - ki + (x - li)]);
                    } else {
                        assert(rs[x] == s[li + (x - li - ki)]);
                    }
                }
            }
        }
        Ok(())
    }
}

/// The rotation distance `j` modulo `n`, in `[0, n)`, with a negative `j`
/// measured from the other end.
fn rotation_distance(j: i64, n: usize) -> (k: usize)
    requires
        n >= 1,
    ensures
        k as int == (j as int) % (n as int),
{
    if j >= 0 {
        let k = ((j as u64) % (n as u64)) as usize;
        k
    } else {
        let m = (((-(j as i128)) as u128) % (n as u128)) as usize;
        proof {
            let ji = j as int;
            let ni = n as int;
            let t = -ji;
            assert(m == t % ni);
            vstd::arithmetic::div_mod::lemma_fundamental_div_mod(t, ni);
            let q = t / ni;
            assert(t == ni * q + m);
            assert(ni * (-q) == -(ni * q)) by {
                vstd::arithmetic::mul::lemma_mul_unary_negation(ni, q);
            }
            assert(ji == ni * (-q) + (-(m as int)));
            vstd::arithmetic::div_mod::lemma_mod_multiples_vanish(-q, -(m as int), ni);
            assert(ji % ni == (-(m as int)) % ni);
            if m == 0 {
                assert((-(m as int)) % ni == 0) by {
                    vstd::arithmetic::div_mod::lemma_small_mod(0, n as nat);
                }
            } else {
                vstd::arithmetic::div_mod::lemma_mod_multiples_vanish(
                    1,
                    -(m as int),
                    ni,
                );
                assert((-(m as int)) % ni == (ni - m) % ni);
                vstd::arithmetic::div_mod::lemma_small_mod((n - m) as nat, n as nat);
            }
        }
        if m == 0 {
            0
        } else {
            n - m
        }
    }
}

/// Reverses the elements of `v` with indices in `[lo, hi)`, in place,
/// leaving every other element unchanged.
fn reverse_range(v: &mut Vec<Value>, lo: usize, hi: usize)
    requires
        lo <= hi,
        hi <= old(v)@.len(),
    ensures
        final(v)@.len() == old(v)@.len(),
        forall|x: int| lo <= x < hi ==> final(v)@[x] == old(v)@[lo + hi - 1 - x],
        forall|x: int| 0 <= x < lo ==> final(v)@[x] == old(v)@[x],
        forall|x: int| hi <= x < old(v)@.len() ==> final(v)@[x] == old(v)@[x],
{
    let mut i = lo;
    let mut h = hi;
    while h - i > 1
        invariant
            lo <= i <= h <= hi,
            hi <= old(v)@.len(),
            v@.len() == old(v)@.len(),
            i - lo == hi - h,
            forall|x: int| lo <= x < i ==> v@[x] == old(v)@[lo + hi - 1 - x],
            forall|x: int| h <= x < hi ==> v@[x] == old(v)@[lo + hi - 1 - x],
            forall|x: int| i <= x < h ==> v@[x] == old(v)@[x],
            forall|x: int| 0 <= x < lo ==> v@[x] == old(v)@[x],
            forall|x: int| hi <= x < old(v)@.len() ==> v@[x] == old(v)@[x],
        decreases h - i,
    {
        let a = v[i];
        let b = v[h - 1];
        v.set(i, b);
        v.set(h - 1, a);
        i = i + 1;
        h = h - 1;
    }
}

} // verus!
