//! The operator-dispatch evaluator: holds the resolved program and, per run,
//! interprets it token by token against a fresh bounded stack, honoring the
//! two control-flow operators.  Its result is proved to be an outcome of the
//! small-step specification machine.

use vstd::prelude::*;
use crate::value::Value;
use crate::value::{ABS_MASK, SIGN_MASK, TRUE_BITS, FALSE_BITS};
use crate::arith::{add_values, sub_values, mul_values, div_values, pow_values};
use crate::arith::{sqrt_value, floor_value, ceil_value, trunc_value, round_value, ln_value,
    log10_value};
use crate::post_script_stack::{PostScriptStack, PostScriptStackError, MAX_STACK_SIZE};
use crate::machine::{Token, OpCode, Instruction, PostScriptEvaluatorError, MachineState};
use crate::machine::{op_code_of, resolve_token, int32_of, to_u32, from_u32};
use crate::machine::{step_arith2, step_arith1, step_compare, step_bitword, step_bitshift,
    step_not, step_intdiv, step_dup, step_pop, step_exch, step_copyn, step_indexn, step_roll,
    step_jump, step_jump_if_zero, apply_op, step_at, step_state, run_n, init_state,
    lemma_run_n_succ};

verus! {

/// The evaluator: the resolved program, interpreted once per `execute` call
/// against a fresh stack.
pub struct PostScriptEvaluator {
    program: Vec<Instruction>,
}

impl View for PostScriptEvaluator {
    type V = Seq<Instruction>;

    closed spec fn view(&self) -> Seq<Instruction> {
        self.program@
    }
}

/// The outcome of dispatching one operator: fall through to the next token,
/// jump to a token index, or abort the run.
enum Flow {
    Next,
    Goto(usize),
    Halt(PostScriptEvaluatorError),
}

/// The machine state a dispatch outcome stands for, given the program
/// counter before the dispatch and the stack after it.
spec fn flow_state(f: Flow, pc: int, stack: Seq<Value>) -> MachineState {
    match f {
        Flow::Next => MachineState::Running { pc: pc + 1, stack },
        Flow::Goto(t) => MachineState::Running { pc: t as int, stack },
        Flow::Halt(e) => MachineState::Failed { error: e },
    }
}

/// Whether the string equals the literal operator name.
fn str_matches(name: &String, lit: &str) -> (r: bool)
    ensures
        r == (name@ == lit@),
{
    let owned = lit.to_owned();
    *name == owned
}

/// The operator a name denotes, by exact match against the fixed table.
pub fn op_code_for_name(name: &String) -> (r: Option<OpCode>)
    ensures
        r == op_code_of(name@),
{
    if str_matches(name, "add") {
        Some(OpCode::Add)
    } else if str_matches(name, "sub") {
        Some(OpCode::Sub)
    } else if str_matches(name, "mul") {
        Some(OpCode::Mul)
    } else if str_matches(name, "div") {
        Some(OpCode::Div)
    } else if str_matches(name, "idiv") {
        Some(OpCode::IntDiv)
    } else if str_matches(name, "mod") {
        Some(OpCode::Modulo)
    } else if str_matches(name, "neg") {
        Some(OpCode::Neg)
    } else if str_matches(name, "abs") {
        Some(OpCode::Abs)
    } else if str_matches(name, "ceiling") {
        Some(OpCode::Ceiling)
    } else if str_matches(name, "floor") {
        Some(OpCode::Floor)
    } else if str_matches(name, "round") {
        Some(OpCode::Round)
    } else if str_matches(name, "truncate") {
        Some(OpCode::Truncate)
    } else if str_matches(name, "sqrt") {
        Some(OpCode::Sqrt)
    } else if str_matches(name, "exp") {
        Some(OpCode::Power)
    } else if str_matches(name, "ln") {
        Some(OpCode::Ln)
    } else if str_matches(name, "log") {
        Some(OpCode::Log)
    } else if str_matches(name, "eq") {
        Some(OpCode::EqualTo)
    } else if str_matches(name, "ne") {
        Some(OpCode::NotEqualTo)
    } else if str_matches(name, "gt") {
        Some(OpCode::GreaterThan)
    } else if str_matches(name, "ge") {
        Some(OpCode::GreaterOrEqual)
    } else if str_matches(name, "lt") {
        Some(OpCode::LessThan)
    } else if str_matches(name, "le") {
        Some(OpCode::LessOrEqual)
    } else if str_matches(name, "and") {
        Some(OpCode::And)
    } else if str_matches(name, "or") {
        Some(OpCode::Or)
    } else if str_matches(name, "xor") {
        Some(OpCode::Xor)
    } else if str_matches(name, "not") {
        Some(OpCode::Not)
    } else if str_matches(name, "bitshift") {
        Some(OpCode::Bitshift)
    } else if str_matches(name, "dup") {
        Some(OpCode::Dup)
    } else if str_matches(name, "pop") {
        Some(OpCode::PopTop)
    } else if str_matches(name, "exch") {
        Some(OpCode::Exchange)
    } else if str_matches(name, "copy") {
        Some(OpCode::CopyN)
    } else if str_matches(name, "index") {
        Some(OpCode::IndexN)
    } else if str_matches(name, "roll") {
        Some(OpCode::Roll)
    } else if str_matches(name, "jump") {
        Some(OpCode::Jump)
    } else if str_matches(name, "jump-if-zero") {
        Some(OpCode::JumpIfZero)
    } else {
        None
    }
}

/// The 32-bit integer a value encodes, if it encodes one.
fn to_int32(v: Value) -> (r: Option<i64>)
    ensures
        match r {
            Some(n) => int32_of(v.bits) == Some(n as int) && -0x8000_0000 <= n < 0x8000_0000,
            None => int32_of(v.bits) is None,
        },
{
    match v.exec_to_int() {
        Some(x) => if -0x8000_0000 <= x && x < 0x8000_0000 {
            Some(x)
        } else {
            None
        },
        None => None,
    }
}

/// The 32-bit two's-complement pattern of an integer in `[-2^31, 2^31)`.
fn u32_of_i64(n: i64) -> (u: u64)
    requires
        -0x8000_0000 <= n < 0x8000_0000,
    ensures
        u == to_u32(n as int),
        u < 0x1_0000_0000,
{
    if n >= 0 {
        n as u64
    } else {
        (n + 0x1_0000_0000) as u64
    }
}

/// The integer a 32-bit two's-complement pattern stands for.
fn i64_of_u32(u: u64) -> (n: i64)
    requires
        u < 0x1_0000_0000,
    ensures
        n as int == from_u32(u),
        -0x8000_0000 <= n < 0x8000_0000,
{
    if u < 0x8000_0000 {
        u as i64
    } else {
        (u as i64) - 0x1_0000_0000
    }
}

/// Dispatches a binary floating-point arithmetic operator.
fn op_arith2(op: OpCode, stack: &mut PostScriptStack) -> (r: Flow)
    requires
        op is Add || op is Sub || op is Mul || op is Div || op is Power,
        old(stack)@.len() <= MAX_STACK_SIZE,
    ensures
        forall|pc: int| flow_state(r, pc, final(stack)@) == step_arith2(op, pc, old(stack)@),
        final(stack)@.len() <= MAX_STACK_SIZE,
        !(r is Goto),
{
    if stack.len() < 2 {
        return Flow::Halt(PostScriptEvaluatorError::StackUnderflow);
    }
    let b = stack.pop().unwrap();
    let a = stack.pop().unwrap();
    assert(b == old(stack)@.last());
    assert(a == old(stack)@[old(stack)@.len() - 2]);
    if op == OpCode::Div && b.exec_is_zero() {
        return Flow::Halt(PostScriptEvaluatorError::DomainError { operator: op });
    }
    let r = match op {
        OpCode::Add => add_values(a, b),
        OpCode::Sub => sub_values(a, b),
        OpCode::Mul => mul_values(a, b),
        OpCode::Div => div_values(a, b),
        OpCode::Power => pow_values(a, b),
        _ => {
            proof {
                assert(false);
            }
            a
        },
    };
    if r.exec_is_finite() {
        stack.push(r).unwrap();
        Flow::Next
    } else {
        Flow::Halt(PostScriptEvaluatorError::DomainError { operator: op })
    }
}

/// Dispatches a unary floating-point arithmetic operator.
fn op_arith1(op: OpCode, stack: &mut PostScriptStack) -> (r: Flow)
    requires
        op is Neg || op is Abs || op is Ceiling || op is Floor || op is Round || op is Truncate
            || op is Sqrt || op is Ln || op is Log,
        old(stack)@.len() <= MAX_STACK_SIZE,
    ensures
        forall|pc: int| flow_state(r, pc, final(stack)@) == step_arith1(op, pc, old(stack)@),
        final(stack)@.len() <= MAX_STACK_SIZE,
        !(r is Goto),
{
    if stack.len() < 1 {
        return Flow::Halt(PostScriptEvaluatorError::StackUnderflow);
    }
    let a = stack.pop().unwrap();
    assert(a == old(stack)@.last());
    let domain_bad = match op {
        OpCode::Sqrt => a.exec_is_negative(),
        OpCode::Ln => a.exec_is_zero() || a.exec_is_negative(),
        OpCode::Log => a.exec_is_zero() || a.exec_is_negative(),
        _ => false,
    };
    if domain_bad {
        return Flow::Halt(PostScriptEvaluatorError::DomainError { operator: op });
    }
    let r = match op {
        OpCode::Neg => Value { bits: a.bits ^ SIGN_MASK },
        OpCode::Abs => Value { bits: a.bits & ABS_MASK },
        OpCode::Ceiling => ceil_value(a),
        OpCode::Floor => floor_value(a),
        OpCode::Round => round_value(a),
        OpCode::Truncate => trunc_value(a),
        OpCode::Sqrt => sqrt_value(a),
        OpCode::Ln => ln_value(a),
        OpCode::Log => log10_value(a),
        _ => {
            proof {
                assert(false);
            }
            a
        },
    };
    if r.exec_is_finite() {
        stack.push(r).unwrap();
        Flow::Next
    } else {
        Flow::Halt(PostScriptEvaluatorError::DomainError { operator: op })
    }
}

/// Dispatches a binary comparison operator.
fn op_compare(op: OpCode, stack: &mut PostScriptStack) -> (r: Flow)
    requires
        op is EqualTo || op is NotEqualTo || op is GreaterThan || op is GreaterOrEqual
            || op is LessThan || op is LessOrEqual,
        old(stack)@.len() <= MAX_STACK_SIZE,
    ensures
        forall|pc: int| flow_state(r, pc, final(stack)@) == step_compare(op, pc, old(stack)@),
        final(stack)@.len() <= MAX_STACK_SIZE,
        !(r is Goto),
{
    if stack.len() < 2 {
        return Flow::Halt(PostScriptEvaluatorError::StackUnderflow);
    }
    let b = stack.pop().unwrap();
    let a = stack.pop().unwrap();
    assert(b == old(stack)@.last());
    assert(a == old(stack)@[old(stack)@.len() - 2]);
    let t = match op {
        OpCode::EqualTo => a.exec_eq(b),
        OpCode::NotEqualTo => !a.exec_eq(b),
        OpCode::LessThan => a.exec_lt(b),
        OpCode::LessOrEqual => a.exec_lt(b) || a.exec_eq(b),
        OpCode::GreaterThan => b.exec_lt(a),
        OpCode::GreaterOrEqual => b.exec_lt(a) || b.exec_eq(a),
        _ => {
            proof {
                assert(false);
            }
            false
        },
    };
    let r = Value {
        bits: if t {
            TRUE_BITS
        } else {
            FALSE_BITS
        },
    };
    stack.push(r).unwrap();
    Flow::Next
}

/// Dispatches `and`, `or` or `xor`.
fn op_bitword(op: OpCode, stack: &mut PostScriptStack) -> (r: Flow)
    requires
        op is And || op is Or || op is Xor,
        old(stack)@.len() <= MAX_STACK_SIZE,
    ensures
        forall|pc: int| flow_state(r, pc, final(stack)@) == step_bitword(op, pc, old(stack)@),
        final(stack)@.len() <= MAX_STACK_SIZE,
        !(r is Goto),
{
    if stack.len() < 2 {
        return Flow::Halt(PostScriptEvaluatorError::StackUnderflow);
    }
    let b = stack.pop().unwrap();
    let a = stack.pop().unwrap();
    assert(b == old(stack)@.last());
    assert(a == old(stack)@[old(stack)@.len() - 2]);
    let na = match to_int32(a) {
        Some(x) => x,
        None => {
            return Flow::Halt(PostScriptEvaluatorError::DomainError { operator: op });
        },
    };
    let nb = match to_int32(b) {
        Some(x) => x,
        None => {
            return Flow::Halt(PostScriptEvaluatorError::DomainError { operator: op });
        },
    };
    let ua = u32_of_i64(na);
    let ub = u32_of_i64(nb);
    let ru = match op {
        OpCode::And => ua & ub,
        OpCode::Or => ua | ub,
        OpCode::Xor => ua ^ ub,
        _ => {
            proof {
                assert(false);
            }
            0
        },
    };
    assert(ru < 0x1_0000_0000) by (bit_vector)
        requires
            ua < 0x1_0000_0000,
            ub < 0x1_0000_0000,
            ru == ua & ub || ru == (ua | ub) || ru == (ua ^ ub),
    ;
    let res = i64_of_u32(ru);
    let v = Value::from_small_int(res);
    stack.push(v).unwrap();
    Flow::Next
}

/// Dispatches `bitshift`.
fn op_bitshift(stack: &mut PostScriptStack) -> (r: Flow)
    requires
        old(stack)@.len() <= MAX_STACK_SIZE,
    ensures
        forall|pc: int| flow_state(r, pc, final(stack)@) == step_bitshift(pc, old(stack)@),
        final(stack)@.len() <= MAX_STACK_SIZE,
        !(r is Goto),
{
    if stack.len() < 2 {
        return Flow::Halt(PostScriptEvaluatorError::StackUnderflow);
    }
    let b = stack.pop().unwrap();
    let a = stack.pop().unwrap();
    assert(b == old(stack)@.last());
    assert(a == old(stack)@[old(stack)@.len() - 2]);
    let na = match to_int32(a) {
        Some(x) => x,
        None => {
            return Flow::Halt(
                PostScriptEvaluatorError::DomainError { operator: OpCode::Bitshift },
            );
        },
    };
    let ns = match to_int32(b) {
        Some(x) => x,
        None => {
            return Flow::Halt(
                PostScriptEvaluatorError::DomainError { operator: OpCode::Bitshift },
            );
        },
    };
    let ua = u32_of_i64(na);
    if 0 <= ns && ns <= 31 {
        let s = ns as u64;
        let ru = (ua << s) & 0xFFFF_FFFF;
        assert(ru < 0x1_0000_0000) by (bit_vector)
            requires
                ru == (ua << s) & 0xFFFF_FFFF,
        ;
        let res = i64_of_u32(ru);
        let v = Value::from_small_int(res);
        stack.push(v).unwrap();
        Flow::Next
    } else if -31 <= ns && ns < 0 {
        let s = (-ns) as u64;
        let ru = if ua < 0x8000_0000 {
            ua >> s
        } else {
            (ua >> s) | (0xFFFF_FFFFu64 ^ (0xFFFF_FFFFu64 >> s))
        };
        assert(ru < 0x1_0000_0000) by (bit_vector)
            requires
                ua < 0x1_0000_0000,
                ru == ua >> s || ru == (ua >> s) | (0xFFFF_FFFFu64 ^ (0xFFFF_FFFFu64 >> s)),
        ;
        let res = i64_of_u32(ru);
        let v = Value::from_small_int(res);
        stack.push(v).unwrap();
        Flow::Next
    } else {
        Flow::Halt(PostScriptEvaluatorError::DomainError { operator: OpCode::Bitshift })
    }
}

/// Dispatches `not`.
fn op_not(stack: &mut PostScriptStack) -> (r: Flow)
    requires
        old(stack)@.len() <= MAX_STACK_SIZE,
    ensures
        forall|pc: int| flow_state(r, pc, final(stack)@) == step_not(pc, old(stack)@),
        final(stack)@.len() <= MAX_STACK_SIZE,
        !(r is Goto),
{
    if stack.len() < 1 {
        return Flow::Halt(PostScriptEvaluatorError::StackUnderflow);
    }
    let a = stack.pop().unwrap();
    assert(a == old(stack)@.last());
    if a.bits == FALSE_BITS {
        stack.push(Value { bits: TRUE_BITS }).unwrap();
        Flow::Next
    } else if a.bits == TRUE_BITS {
        stack.push(Value { bits: FALSE_BITS }).unwrap();
        Flow::Next
    } else {
        let na = match to_int32(a) {
            Some(x) => x,
            None => {
                return Flow::Halt(PostScriptEvaluatorError::DomainError { operator: OpCode::Not });
            },
        };
        let ua = u32_of_i64(na);
        let ru = ua ^ 0xFFFF_FFFF;
        assert(ru < 0x1_0000_0000) by (bit_vector)
            requires
                ua < 0x1_0000_0000,
                ru == ua ^ 0xFFFF_FFFF,
        ;
        let res = i64_of_u32(ru);
        let v = Value::from_small_int(res);
        stack.push(v).unwrap();
        Flow::Next
    }
}

/// Dispatches `idiv` or `mod`.
fn op_intdiv(op: OpCode, stack: &mut PostScriptStack) -> (r: Flow)
    requires
        op is IntDiv || op is Modulo,
        old(stack)@.len() <= MAX_STACK_SIZE,
    ensures
        forall|pc: int| flow_state(r, pc, final(stack)@) == step_intdiv(op, pc, old(stack)@),
        final(stack)@.len() <= MAX_STACK_SIZE,
        !(r is Goto),
{
    if stack.len() < 2 {
        return Flow::Halt(PostScriptEvaluatorError::StackUnderflow);
    }
    let b = stack.pop().unwrap();
    let a = stack.pop().unwrap();
    assert(b == old(stack)@.last());
    assert(a == old(stack)@[old(stack)@.len() - 2]);
    let na = match to_int32(a) {
        Some(x) => x,
        None => {
            return Flow::Halt(PostScriptEvaluatorError::DomainError { operator: op });
        },
    };
    let nb = match to_int32(b) {
        Some(x) => x,
        None => {
            return Flow::Halt(PostScriptEvaluatorError::DomainError { operator: op });
        },
    };
    if nb == 0 {
        return Flow::Halt(PostScriptEvaluatorError::DomainError { operator: op });
    }
    let ma: u64 = if na >= 0 {
        na as u64
    } else {
        (-na) as u64
    };
    let mb: u64 = if nb >= 0 {
        nb as u64
    } else {
        (-nb) as u64
    };
    let res: i64 = if op == OpCode::IntDiv {
        let q = ma / mb;
        proof {
            vstd::arithmetic::div_mod::lemma_div_is_ordered_by_denominator(ma as int, 1, mb as int);
        }
        if (na < 0) != (nb < 0) {
            -(q as i64)
        } else {
            q as i64
        }
    } else {
        let rr = ma % mb;
        proof {
            vstd::arithmetic::div_mod::lemma_mod_bound(ma as int, mb as int);
        }
        if na < 0 {
            -(rr as i64)
        } else {
            rr as i64
        }
    };
    let v = Value::from_small_int(res);
    stack.push(v).unwrap();
    Flow::Next
}

/// Dispatches `dup`.
fn op_dup(stack: &mut PostScriptStack) -> (r: Flow)
    requires
        old(stack)@.len() <= MAX_STACK_SIZE,
    ensures
        forall|pc: int| flow_state(r, pc, final(stack)@) == step_dup(pc, old(stack)@),
        final(stack)@.len() <= MAX_STACK_SIZE,
        !(r is Goto),
{
    if stack.len() < 1 {
        return Flow::Halt(PostScriptEvaluatorError::StackUnderflow);
    }
    if stack.len() >= MAX_STACK_SIZE {
        return Flow::Halt(PostScriptEvaluatorError::StackOverflow);
    }
    stack.index(0).unwrap();
    assert(final(stack)@ == old(stack)@.push(old(stack)@.last()));
    Flow::Next
}

/// Dispatches `pop`.
fn op_pop(stack: &mut PostScriptStack) -> (r: Flow)
    requires
        old(stack)@.len() <= MAX_STACK_SIZE,
    ensures
        forall|pc: int| flow_state(r, pc, final(stack)@) == step_pop(pc, old(stack)@),
        final(stack)@.len() <= MAX_STACK_SIZE,
        !(r is Goto),
{
    match stack.pop() {
        Ok(_) => Flow::Next,
        Err(_) => Flow::Halt(PostScriptEvaluatorError::StackUnderflow),
    }
}

/// Dispatches `exch`.
fn op_exch(stack: &mut PostScriptStack) -> (r: Flow)
    requires
        old(stack)@.len() <= MAX_STACK_SIZE,
    ensures
        forall|pc: int| flow_state(r, pc, final(stack)@) == step_exch(pc, old(stack)@),
        final(stack)@.len() <= MAX_STACK_SIZE,
        !(r is Goto),
{
    if stack.len() < 2 {
        return Flow::Halt(PostScriptEvaluatorError::StackUnderflow);
    }
    let b = stack.pop().unwrap();
    let a = stack.pop().unwrap();
    assert(b == old(stack)@.last());
    assert(a == old(stack)@[old(stack)@.len() - 2]);
    stack.push(b).unwrap();
    stack.push(a).unwrap();
    Flow::Next
}

/// Dispatches `copy`.
fn op_copyn(stack: &mut PostScriptStack) -> (r: Flow)
    requires
        old(stack)@.len() <= MAX_STACK_SIZE,
    ensures
        forall|pc: int| flow_state(r, pc, final(stack)@) == step_copyn(pc, old(stack)@),
        final(stack)@.len() <= MAX_STACK_SIZE,
        !(r is Goto),
{
    if stack.len() < 1 {
        return Flow::Halt(PostScriptEvaluatorError::StackUnderflow);
    }
    let c = stack.pop().unwrap();
    assert(c == old(stack)@.last());
    let nn = match c.exec_to_int() {
        Some(x) => x,
        None => {
            return Flow::Halt(PostScriptEvaluatorError::DomainError { operator: OpCode::CopyN });
        },
    };
    if nn < 0 {
        return Flow::Halt(PostScriptEvaluatorError::DomainError { operator: OpCode::CopyN });
    }
    if nn > stack.len() as i64 {
        return Flow::Halt(PostScriptEvaluatorError::StackUnderflow);
    }
    match stack.copy(nn as usize) {
        Ok(_) => Flow::Next,
        Err(PostScriptStackError::StackOverflow) => Flow::Halt(
            PostScriptEvaluatorError::StackOverflow,
        ),
        Err(PostScriptStackError::StackUnderflow) => {
            proof {
                assert(false);
            }
            Flow::Halt(PostScriptEvaluatorError::StackUnderflow)
        },
    }
}

/// Dispatches `index`.
fn op_indexn(stack: &mut PostScriptStack) -> (r: Flow)
    requires
        old(stack)@.len() <= MAX_STACK_SIZE,
    ensures
        forall|pc: int| flow_state(r, pc, final(stack)@) == step_indexn(pc, old(stack)@),
        final(stack)@.len() <= MAX_STACK_SIZE,
        !(r is Goto),
{
    if stack.len() < 1 {
        return Flow::Halt(PostScriptEvaluatorError::StackUnderflow);
    }
    let c = stack.pop().unwrap();
    assert(c == old(stack)@.last());
    let nn = match c.exec_to_int() {
        Some(x) => x,
        None => {
            return Flow::Halt(PostScriptEvaluatorError::DomainError { operator: OpCode::IndexN });
        },
    };
    if nn < 0 {
        return Flow::Halt(PostScriptEvaluatorError::DomainError { operator: OpCode::IndexN });
    }
    if nn >= stack.len() as i64 {
        return Flow::Halt(PostScriptEvaluatorError::StackUnderflow);
    }
    match stack.index(nn as usize) {
        Ok(_) => Flow::Next,
        Err(_) => {
            proof {
                assert(false);
            }
            Flow::Halt(PostScriptEvaluatorError::StackUnderflow)
        },
    }
}

/// Dispatches `roll`.
fn op_roll(stack: &mut PostScriptStack) -> (r: Flow)
    requires
        old(stack)@.len() <= MAX_STACK_SIZE,
    ensures
        forall|pc: int| flow_state(r, pc, final(stack)@) == step_roll(pc, old(stack)@),
        final(stack)@.len() <= MAX_STACK_SIZE,
        !(r is Goto),
{
    if stack.len() < 2 {
        return Flow::Halt(PostScriptEvaluatorError::StackUnderflow);
    }
    let jv = stack.pop().unwrap();
    let nv = stack.pop().unwrap();
    assert(jv == old(stack)@.last());
    assert(nv == old(stack)@[old(stack)@.len() - 2]);
    let jj = match jv.exec_to_int() {
        Some(x) => x,
        None => {
            return Flow::Halt(PostScriptEvaluatorError::DomainError { operator: OpCode::Roll });
        },
    };
    let nn = match nv.exec_to_int() {
        Some(x) => x,
        None => {
            return Flow::Halt(PostScriptEvaluatorError::DomainError { operator: OpCode::Roll });
        },
    };
    if nn < 0 {
        return Flow::Halt(PostScriptEvaluatorError::DomainError { operator: OpCode::Roll });
    }
    if nn > stack.len() as i64 {
        return Flow::Halt(PostScriptEvaluatorError::StackUnderflow);
    }
    match stack.roll(nn as usize, jj) {
        Ok(_) => Flow::Next,
        Err(_) => {
            proof {
                assert(false);
            }
            Flow::Halt(PostScriptEvaluatorError::StackUnderflow)
        },
    }
}

/// Dispatches `jump`.
fn op_jump(plen: usize, stack: &mut PostScriptStack) -> (r: Flow)
    requires
        old(stack)@.len() <= MAX_STACK_SIZE,
    ensures
        forall|pc: int| flow_state(r, pc, final(stack)@) == step_jump(plen as int, old(stack)@),
        final(stack)@.len() <= MAX_STACK_SIZE,
        r matches Flow::Goto(t) ==> t <= plen,
{
    if stack.len() < 1 {
        return Flow::Halt(PostScriptEvaluatorError::StackUnderflow);
    }
    let t = stack.pop().unwrap();
    assert(t == old(stack)@.last());
    match t.exec_to_int() {
        Some(tt) => if tt >= 0 && (tt as u64) <= (plen as u64) {
            Flow::Goto(tt as usize)
        } else {
            Flow::Halt(PostScriptEvaluatorError::InvalidJumpTarget { target: t })
        },
        None => Flow::Halt(PostScriptEvaluatorError::InvalidJumpTarget { target: t }),
    }
}

/// Dispatches `jump-if-zero`.
fn op_jump_if_zero(plen: usize, stack: &mut PostScriptStack) -> (r: Flow)
    requires
        old(stack)@.len() <= MAX_STACK_SIZE,
    ensures
        forall|pc: int| flow_state(r, pc, final(stack)@) == step_jump_if_zero(
            plen as int,
            pc,
            old(stack)@,
        ),
        final(stack)@.len() <= MAX_STACK_SIZE,
        r matches Flow::Goto(t) ==> t <= plen,
{
    if stack.len() < 2 {
        return Flow::Halt(PostScriptEvaluatorError::StackUnderflow);
    }
    let t = stack.pop().unwrap();
    let cond = stack.pop().unwrap();
    assert(t == old(stack)@.last());
    assert(cond == old(stack)@[old(stack)@.len() - 2]);
    if cond.exec_is_zero() {
        match t.exec_to_int() {
            Some(tt) => if tt >= 0 && (tt as u64) <= (plen as u64) {
                Flow::Goto(tt as usize)
            } else {
                Flow::Halt(PostScriptEvaluatorError::InvalidJumpTarget { target: t })
            },
            None => Flow::Halt(PostScriptEvaluatorError::InvalidJumpTarget { target: t }),
        }
    } else {
        Flow::Next
    }
}

/// Dispatches one recognized operator against the stack.
fn run_op(op: OpCode, plen: usize, stack: &mut PostScriptStack) -> (r: Flow)
    requires
        old(stack)@.len() <= MAX_STACK_SIZE,
    ensures
        forall|pc: int| flow_state(r, pc, final(stack)@) == apply_op(
            op,
            plen as int,
            pc,
            old(stack)@,
        ),
        final(stack)@.len() <= MAX_STACK_SIZE,
        r matches Flow::Goto(t) ==> t <= plen,
{
    match op {
        OpCode::Add | OpCode::Sub | OpCode::Mul | OpCode::Div | OpCode::Power => op_arith2(
            op,
            stack,
        ),
        OpCode::Neg | OpCode::Abs | OpCode::Ceiling | OpCode::Floor | OpCode::Round
            | OpCode::Truncate | OpCode::Sqrt | OpCode::Ln | OpCode::Log => op_arith1(op, stack),
        OpCode::EqualTo | OpCode::NotEqualTo | OpCode::GreaterThan | OpCode::GreaterOrEqual
            | OpCode::LessThan | OpCode::LessOrEqual => op_compare(op, stack),
        OpCode::And | OpCode::Or | OpCode::Xor => op_bitword(op, stack),
        OpCode::Not => op_not(stack),
        OpCode::Bitshift => op_bitshift(stack),
        OpCode::IntDiv | OpCode::Modulo => op_intdiv(op, stack),
        OpCode::Dup => op_dup(stack),
        OpCode::PopTop => op_pop(stack),
        OpCode::Exchange => op_exch(stack),
        OpCode::CopyN => op_copyn(stack),
        OpCode::IndexN => op_indexn(stack),
        OpCode::Roll => op_roll(stack),
        OpCode::Jump => op_jump(plen, stack),
        OpCode::JumpIfZero => op_jump_if_zero(plen, stack),
    }
}

impl PostScriptEvaluator {
    /// Builds an evaluator from the tokenized program, resolving each
    /// operator name against the fixed table once, at load time.
    pub fn new(operators: Vec<Token>) -> (r: PostScriptEvaluator)
        ensures
            r@ == operators@.map_values(|t: Token| resolve_token(t)),
    {
        let ghost toks = operators@;
        let mut ops = operators;
        let mut program: Vec<Instruction> = Vec::new();
        while ops.len() > 0
            invariant
                program@.len() + ops@.len() == toks.len(),
                ops@ == toks.subrange(
                    toks.len() - ops@.len(),
                    toks.len() as int,
                ),
                program@ == toks.subrange(0, toks.len() - ops@.len()).map_values(
                    |t: Token| resolve_token(t),
                ),
            decreases ops@.len(),
        {
            let ghost done = (toks.len() - ops@.len()) as int;
            let t = ops.remove(0);
            assert(t == toks[done]);
            let ins: Instruction = match t {
                Token::Operand(v) => Instruction::Literal(v),
                Token::Operator(s) => {
                    match op_code_for_name(&s) {
                        Some(op) => Instruction::Op(op),
                        None => Instruction::Unknown(s),
                    }
                },
            };
            assert(ins == resolve_token(toks[done]));
            program.push(ins);
            proof {
                assert(ops@ =~= toks.subrange(toks.len() - ops@.len(), toks.len() as int));
                assert(program@ =~= toks.subrange(0, done + 1).map_values(
                    |t: Token| resolve_token(t),
                ));
            }
        }
        proof {
            assert(toks.subrange(0, toks.len() as int) =~= toks);
        }
        PostScriptEvaluator { program }
    }

    /// Runs the program against a fresh stack seeded with `initial_stack`
    /// (its first element bottom-most) and returns the final stack, or the
    /// first error encountered.  The two jump operators permit programs
    /// that never end, so the caller imposes a ceiling on the number of
    /// dispatched tokens: a run that is still going after `max_steps`
    /// dispatches fails with `StepLimitExceeded`.  The result is an outcome
    /// of the specification machine: some number of small steps from the
    /// initial state reaches exactly the returned state (and, by
    /// `lemma_run_deterministic`, no other terminal state is reachable).
    pub fn execute(&self, initial_stack: Vec<Value>, max_steps: u64) -> (r: Result<
        PostScriptStack,
        PostScriptEvaluatorError,
    >)
        ensures
            (r is Ok ==> exists|n: nat|
                n <= max_steps + 1 && run_n(self@, init_state(initial_stack@), n)
                    == (MachineState::Done { stack: r->Ok_0@ })),
            (r is Err && r->Err_0 != PostScriptEvaluatorError::StepLimitExceeded ==> exists|
                n: nat,
            |
                n <= max_steps + 1 && run_n(self@, init_state(initial_stack@), n)
                    == (MachineState::Failed { error: r->Err_0 })),
            (r == Err::<PostScriptStack, _>(PostScriptEvaluatorError::StepLimitExceeded)
                ==> run_n(self@, init_state(initial_stack@), max_steps as nat) is Running),
    {
        let ghost init = init_state(initial_stack@);
        if initial_stack.len() > MAX_STACK_SIZE {
            proof {
                assert(run_n(self@, init, 0) == (MachineState::Failed {
                    error: PostScriptEvaluatorError::StackOverflow,
                }));
            }
            return Err(PostScriptEvaluatorError::StackOverflow);
        }
        let mut stack = PostScriptStack::new_from_initial_stack(initial_stack);
        let mut pc: usize = 0;
        let mut count: u64 = 0;
        let ghost mut steps: nat = 0;
        while pc < self.program.len() && count < max_steps
            invariant
                pc <= self.program@.len(),
                stack@.len() <= MAX_STACK_SIZE,
                count == steps,
                count <= max_steps,
                run_n(self@, init, steps) == (MachineState::Running {
                    pc: pc as int,
                    stack: stack@,
                }),
                self@ == self.program@,
                init == init_state(initial_stack@),
            decreases max_steps - count,
        {
            let ghost pre = stack@;
            proof {
                lemma_run_n_succ(self@, init, steps);
            }
            let plen = self.program.len();
            let ins = &self.program[pc];
            match ins {
                Instruction::Literal(v) => {
                    match stack.push(*v) {
                        Ok(_) => {
                            proof {
                                assert(run_n(self@, init, steps + 1) == (MachineState::Running {
                                    pc: pc as int + 1,
                                    stack: stack@,
                                }));
                                steps = steps + 1;
                            }
                            pc = pc + 1;
                            count = count + 1;
                        },
                        Err(_) => {
                            proof {
                                assert(run_n(self@, init_state(initial_stack@), steps + 1)
                                    == (MachineState::Failed {
                                    error: PostScriptEvaluatorError::StackOverflow,
                                }));
                            }
                            return Err(PostScriptEvaluatorError::StackOverflow);
                        },
                    }
                },
                Instruction::Op(op) => {
                    let flow = run_op(*op, plen, &mut stack);
                    proof {
                        assert(flow_state(flow, pc as int, stack@) == step_at(
                            self@,
                            pc as int,
                            pre,
                        ));
                    }
                    match flow {
                        Flow::Next => {
                            proof {
                                assert(run_n(self@, init, steps + 1) == (MachineState::Running {
                                    pc: pc as int + 1,
                                    stack: stack@,
                                }));
                                steps = steps + 1;
                            }
                            pc = pc + 1;
                            count = count + 1;
                        },
                        Flow::Goto(t) => {
                            proof {
                                assert(run_n(self@, init, steps + 1) == (MachineState::Running {
                                    pc: t as int,
                                    stack: stack@,
                                }));
                                steps = steps + 1;
                            }
                            pc = t;
                            count = count + 1;
                        },
                        Flow::Halt(e) => {
                            proof {
                                assert(run_n(self@, init_state(initial_stack@), steps + 1)
                                    == (MachineState::Failed { error: e }));
                            }
                            return Err(e);
                        },
                    }
                },
                Instruction::Unknown(s) => {
                    let e = PostScriptEvaluatorError::UnknownOperator { operator: s.clone() };
                    proof {
                        assert(run_n(self@, init_state(initial_stack@), steps + 1)
                            == (MachineState::Failed { error: e }));
                    }
                    return Err(e);
                },
            }
        }
        if pc < self.program.len() {
            proof {
                assert(steps == max_steps as nat);
                assert(run_n(self@, init_state(initial_stack@), max_steps as nat) is Running);
            }
            return Err(PostScriptEvaluatorError::StepLimitExceeded);
        }
        proof {
            lemma_run_n_succ(self@, init, steps);
            assert(run_n(self@, init_state(initial_stack@), steps + 1) == (MachineState::Done {
                stack: stack@,
            }));
        }
        Ok(stack)
    }
}

} // verus!
