//! The instruction set and the small-step specification of the evaluator: a
//! total transition function over an abstract machine state (program counter
//! and value stack), against which the executable evaluator is proved.

use vstd::prelude::*;
use crate::value::Value;
use crate::value::{is_zero, is_finite, is_negative, d_eq, d_lt, d_le};
use crate::value::{neg_bits, abs_bits, bool_bits, int_of_bits, bits_of_int};
use crate::arith::{add_bits, sub_bits, mul_bits, div_bits, pow_bits};
use crate::arith::{sqrt_bits, floor_bits, ceil_bits, trunc_bits, round_bits, ln_bits, log10_bits};
use crate::post_script_stack::{MAX_STACK_SIZE, roll_spec};

verus! {

/// A token of the input program: either a numeric literal operand or an
/// operator name.
#[derive(Debug, Clone, PartialEq, Eq)]
pub enum Token {
    /// A numeric literal, pushed directly onto the stack.
    Operand(Value),
    /// The name of an operator, matched exactly against the operator table.
    Operator(String),
}

/// The fixed operator table: every operator of the calculator language,
/// including the two control-flow additions `jump` and `jump-if-zero`.
#[derive(Debug, Clone, Copy, PartialEq, Eq, Structural)]
pub enum OpCode {
    Add,
    Sub,
    Mul,
    Div,
    IntDiv,
    Modulo,
    Neg,
    Abs,
    Ceiling,
    Floor,
    Round,
    Truncate,
    Sqrt,
    Power,
    Ln,
    Log,
    EqualTo,
    NotEqualTo,
    GreaterThan,
    GreaterOrEqual,
    LessThan,
    LessOrEqual,
    And,
    Or,
    Xor,
    Not,
    Bitshift,
    Dup,
    PopTop,
    Exchange,
    CopyN,
    IndexN,
    Roll,
    Jump,
    JumpIfZero,
}

/// A resolved token: a literal, a recognized operator, or a name that the
/// operator table does not contain (which aborts the run when dispatched).
#[derive(Debug, Clone, PartialEq, Eq)]
pub enum Instruction {
    /// A numeric literal operand.
    Literal(Value),
    /// A recognized operator.
    Op(OpCode),
    /// An unrecognized operator name, kept so that dispatching it can report
    /// the offending token.
    Unknown(String),
}

/// A failure of an evaluator run; every one is fatal to the run.
#[derive(Debug, Clone, PartialEq, Eq)]
#[allow(inconsistent_fields)]
pub enum PostScriptEvaluatorError {
    /// A push or duplicate would exceed the stack's fixed capacity.
    StackOverflow,
    /// An operation requires more operands than the stack holds.
    StackUnderflow,
    /// A token matches no entry of the operator table; carries the token.
    UnknownOperator { operator: String },
    /// A jump's computed target is not a token index in `[0, length]`;
    /// carries the offending target value.
    InvalidJumpTarget { target: Value },
    /// An operator's result is mathematically undefined or not representable
    /// as a finite value for the given operands; carries the operator.
    DomainError { operator: OpCode },
    /// The caller-imposed ceiling on dispatched tokens was reached before
    /// the run finished.  The two jump operators permit programs that never
    /// terminate, so every run is bounded by such a ceiling.
    StepLimitExceeded,
}

/// The state of a run: either still running with a program counter and a
/// stack, finished normally with a final stack, or failed with an error.
pub enum MachineState {
    Running { pc: int, stack: Seq<Value> },
    Done { stack: Seq<Value> },
    Failed { error: PostScriptEvaluatorError },
}

/// The operator the given name denotes, by exact match against the table.
pub open spec fn op_code_of(name: Seq<char>) -> Option<OpCode> {
    if name == "add"@ {
        Some(OpCode::Add)
    } else if name == "sub"@ {
        Some(OpCode::Sub)
    } else if name == "mul"@ {
        Some(OpCode::Mul)
    } else if name == "div"@ {
        Some(OpCode::Div)
    } else if name == "idiv"@ {
        Some(OpCode::IntDiv)
    } else if name == "mod"@ {
        Some(OpCode::Modulo)
    } else if name == "neg"@ {
        Some(OpCode::Neg)
    } else if name == "abs"@ {
        Some(OpCode::Abs)
    } else if name == "ceiling"@ {
        Some(OpCode::Ceiling)
    } else if name == "floor"@ {
        Some(OpCode::Floor)
    } else if name == "round"@ {
        Some(OpCode::Round)
    } else if name == "truncate"@ {
        Some(OpCode::Truncate)
    } else if name == "sqrt"@ {
        Some(OpCode::Sqrt)
    } else if name == "exp"@ {
        Some(OpCode::Power)
    } else if name == "ln"@ {
        Some(OpCode::Ln)
    } else if name == "log"@ {
        Some(OpCode::Log)
    } else if name == "eq"@ {
        Some(OpCode::EqualTo)
    } else if name == "ne"@ {
        Some(OpCode::NotEqualTo)
    } else if name == "gt"@ {
        Some(OpCode::GreaterThan)
    } else if name == "ge"@ {
        Some(OpCode::GreaterOrEqual)
    } else if name == "lt"@ {
        Some(OpCode::LessThan)
    } else if name == "le"@ {
        Some(OpCode::LessOrEqual)
    } else if name == "and"@ {
        Some(OpCode::And)
    } else if name == "or"@ {
        Some(OpCode::Or)
    } else if name == "xor"@ {
        Some(OpCode::Xor)
    } else if name == "not"@ {
        Some(OpCode::Not)
    } else if name == "bitshift"@ {
        Some(OpCode::Bitshift)
    } else if name == "dup"@ {
        Some(OpCode::Dup)
    } else if name == "pop"@ {
        Some(OpCode::PopTop)
    } else if name == "exch"@ {
        Some(OpCode::Exchange)
    } else if name == "copy"@ {
        Some(OpCode::CopyN)
    } else if name == "index"@ {
        Some(OpCode::IndexN)
    } else if name == "roll"@ {
        Some(OpCode::Roll)
    } else if name == "jump"@ {
        Some(OpCode::Jump)
    } else if name == "jump-if-zero"@ {
        Some(OpCode::JumpIfZero)
    } else {
        None
    }
}

/// How one token of the input program is resolved at load time.
pub open spec fn resolve_token(t: Token) -> Instruction {
    match t {
        Token::Operand(v) => Instruction::Literal(v),
        Token::Operator(s) => match op_code_of(s@) {
            Some(op) => Instruction::Op(op),
            None => Instruction::Unknown(s),
        },
    }
}

/// The integer `n` encodes, if it encodes one representable in 32 bits.
pub open spec fn int32_of(b: u64) -> Option<int> {
    match int_of_bits(b) {
        Some(n) => if -0x8000_0000 <= n && n < 0x8000_0000 {
            Some(n)
        } else {
            None
        },
        None => None,
    }
}

/// The 32-bit two's-complement pattern of an integer in `[-2^31, 2^31)`.
pub open spec fn to_u32(n: int) -> u64 {
    if n >= 0 {
        n as u64
    } else {
        (n + 0x1_0000_0000) as u64
    }
}

/// The integer a 32-bit two's-complement pattern stands for.
pub open spec fn from_u32(u: u64) -> int {
    if u < 0x8000_0000 {
        u as int
    } else {
        u - 0x1_0000_0000
    }
}

/// Left shift within 32 bits; bits shifted beyond bit 31 are discarded.
pub open spec fn shl32(u: u64, s: u64) -> u64 {
    (u << s) & 0xFFFF_FFFF
}

/// Arithmetic right shift within 32 bits; the sign bit is copied into the
/// vacated positions.
pub open spec fn asr32(u: u64, s: u64) -> u64 {
    if u < 0x8000_0000 {
        u >> s
    } else {
        (u >> s) | (0xFFFF_FFFFu64 ^ (0xFFFF_FFFFu64 >> s))
    }
}

/// Quotient of truncating integer division (rounded toward zero).
pub open spec fn trunc_div(a: int, b: int) -> int
    recommends
        b != 0,
{
    let q = (if a < 0 {
        -a
    } else {
        a
    }) / (if b < 0 {
        -b
    } else {
        b
    });
    if (a < 0) != (b < 0) {
        -q
    } else {
        q
    }
}

/// Remainder of truncating integer division; its sign follows the dividend.
pub open spec fn trunc_rem(a: int, b: int) -> int
    recommends
        b != 0,
{
    let r = (if a < 0 {
        -a
    } else {
        a
    }) % (if b < 0 {
        -b
    } else {
        b
    });
    if a < 0 {
        -r
    } else {
        r
    }
}

/// Result bit pattern of a binary floating-point arithmetic operator.
pub open spec fn arith2_bits(op: OpCode, a: u64, b: u64) -> u64 {
    match op {
        OpCode::Add => add_bits(a, b),
        OpCode::Sub => sub_bits(a, b),
        OpCode::Mul => mul_bits(a, b),
        OpCode::Div => div_bits(a, b),
        OpCode::Power => pow_bits(a, b),
        _ => 0,
    }
}

/// Result bit pattern of a unary floating-point arithmetic operator.
pub open spec fn arith1_bits(op: OpCode, a: u64) -> u64 {
    match op {
        OpCode::Neg => neg_bits(a),
        OpCode::Abs => abs_bits(a),
        OpCode::Ceiling => ceil_bits(a),
        OpCode::Floor => floor_bits(a),
        OpCode::Round => round_bits(a),
        OpCode::Truncate => trunc_bits(a),
        OpCode::Sqrt => sqrt_bits(a),
        OpCode::Ln => ln_bits(a),
        OpCode::Log => log10_bits(a),
        _ => 0,
    }
}

/// The operand precondition of a unary arithmetic operator: a square root
/// needs a non-negative operand, the logarithms a strictly positive one.
pub open spec fn arith1_domain_ok(op: OpCode, a: u64) -> bool {
    match op {
        OpCode::Sqrt => !is_negative(a),
        OpCode::Ln => !is_zero(a) && !is_negative(a),
        OpCode::Log => !is_zero(a) && !is_negative(a),
        _ => true,
    }
}

/// Truth value a binary comparison operator yields on the two operands.
pub open spec fn compare_bool(op: OpCode, a: u64, b: u64) -> bool {
    match op {
        OpCode::EqualTo => d_eq(a, b),
        OpCode::NotEqualTo => !d_eq(a, b),
        OpCode::LessThan => d_lt(a, b),
        OpCode::LessOrEqual => d_le(a, b),
        OpCode::GreaterThan => d_lt(b, a),
        OpCode::GreaterOrEqual => d_le(b, a),
        _ => false,
    }
}

/// Result (as an integer) of a bitwise binary operator on two 32-bit
/// operands.
pub open spec fn bitword_int(op: OpCode, na: int, nb: int) -> int {
    match op {
        OpCode::And => from_u32(to_u32(na) & to_u32(nb)),
        OpCode::Or => from_u32(to_u32(na) | to_u32(nb)),
        OpCode::Xor => from_u32(to_u32(na) ^ to_u32(nb)),
        _ => 0,
    }
}

/// Dispatch of a binary floating-point arithmetic operator: both operands
/// are popped; division by zero is a domain error; a result that is not a
/// finite value is a domain error; otherwise the result replaces the
/// operands.
pub open spec fn step_arith2(op: OpCode, pc: int, stack: Seq<Value>) -> MachineState {
    if stack.len() < 2 {
        MachineState::Failed { error: PostScriptEvaluatorError::StackUnderflow }
    } else {
        let b = stack.last().bits;
        let a = stack[stack.len() - 2].bits;
        if op is Div && is_zero(b) {
            MachineState::Failed { error: PostScriptEvaluatorError::DomainError { operator: op } }
        } else {
            let r = arith2_bits(op, a, b);
            if is_finite(r) {
                MachineState::Running {
                    pc: pc + 1,
                    stack: stack.drop_last().drop_last().push(Value { bits: r }),
                }
            } else {
                MachineState::Failed {
                    error: PostScriptEvaluatorError::DomainError { operator: op },
                }
            }
        }
    }
}

/// Dispatch of a unary floating-point arithmetic operator.
pub open spec fn step_arith1(op: OpCode, pc: int, stack: Seq<Value>) -> MachineState {
    if stack.len() < 1 {
        MachineState::Failed { error: PostScriptEvaluatorError::StackUnderflow }
    } else {
        let a = stack.last().bits;
        if !arith1_domain_ok(op, a) {
            MachineState::Failed { error: PostScriptEvaluatorError::DomainError { operator: op } }
        } else {
            let r = arith1_bits(op, a);
            if is_finite(r) {
                MachineState::Running {
                    pc: pc + 1,
                    stack: stack.drop_last().push(Value { bits: r }),
                }
            } else {
                MachineState::Failed {
                    error: PostScriptEvaluatorError::DomainError { operator: op },
                }
            }
        }
    }
}

/// Dispatch of a binary comparison operator: the two operands are replaced
/// by the canonical boolean sentinel of the comparison's truth value.
pub open spec fn step_compare(op: OpCode, pc: int, stack: Seq<Value>) -> MachineState {
    if stack.len() < 2 {
        MachineState::Failed { error: PostScriptEvaluatorError::StackUnderflow }
    } else {
        let b = stack.last().bits;
        let a = stack[stack.len() - 2].bits;
        MachineState::Running {
            pc: pc + 1,
            stack: stack.drop_last().drop_last().push(
                Value { bits: bool_bits(compare_bool(op, a, b)) },
            ),
        }
    }
}

/// Dispatch of `and`, `or` and `xor`: both operands must encode 32-bit
/// integers (the canonical boolean sentinels are such integers, on which the
/// bitwise result coincides with the boolean one); the result replaces them.
pub open spec fn step_bitword(op: OpCode, pc: int, stack: Seq<Value>) -> MachineState {
    if stack.len() < 2 {
        MachineState::Failed { error: PostScriptEvaluatorError::StackUnderflow }
    } else {
        let b = stack.last().bits;
        let a = stack[stack.len() - 2].bits;
        match (int32_of(a), int32_of(b)) {
            (Some(na), Some(nb)) => MachineState::Running {
                pc: pc + 1,
                stack: stack.drop_last().drop_last().push(
                    Value { bits: bits_of_int(bitword_int(op, na, nb)) },
                ),
            },
            _ => MachineState::Failed {
                error: PostScriptEvaluatorError::DomainError { operator: op },
            },
        }
    }
}

/// Dispatch of `bitshift`: value and shift distance must encode 32-bit
/// integers; a positive distance shifts left, a negative one right
/// (arithmetically); a distance beyond 31 either way is a domain error.
pub open spec fn step_bitshift(pc: int, stack: Seq<Value>) -> MachineState {
    if stack.len() < 2 {
        MachineState::Failed { error: PostScriptEvaluatorError::StackUnderflow }
    } else {
        let b = stack.last().bits;
        let a = stack[stack.len() - 2].bits;
        match (int32_of(a), int32_of(b)) {
            (Some(na), Some(ns)) => if 0 <= ns && ns <= 31 {
                MachineState::Running {
                    pc: pc + 1,
                    stack: stack.drop_last().drop_last().push(
                        Value { bits: bits_of_int(from_u32(shl32(to_u32(na), ns as u64))) },
                    ),
                }
            } else if -31 <= ns && ns < 0 {
                MachineState::Running {
                    pc: pc + 1,
                    stack: stack.drop_last().drop_last().push(
                        Value { bits: bits_of_int(from_u32(asr32(to_u32(na), (-ns) as u64))) },
                    ),
                }
            } else {
                MachineState::Failed {
                    error: PostScriptEvaluatorError::DomainError { operator: OpCode::Bitshift },
                }
            },
            _ => MachineState::Failed {
                error: PostScriptEvaluatorError::DomainError { operator: OpCode::Bitshift },
            },
        }
    }
}

/// Dispatch of `not`: the canonical boolean sentinels are negated as
/// booleans; any other operand encoding a 32-bit integer is complemented
/// bitwise; anything else is a domain error.
pub open spec fn step_not(pc: int, stack: Seq<Value>) -> MachineState {
    if stack.len() < 1 {
        MachineState::Failed { error: PostScriptEvaluatorError::StackUnderflow }
    } else {
        let a = stack.last().bits;
        if a == crate::value::FALSE_BITS {
            MachineState::Running {
                pc: pc + 1,
                stack: stack.drop_last().push(Value { bits: crate::value::TRUE_BITS }),
            }
        } else if a == crate::value::TRUE_BITS {
            MachineState::Running {
                pc: pc + 1,
                stack: stack.drop_last().push(Value { bits: crate::value::FALSE_BITS }),
            }
        } else {
            match int32_of(a) {
                Some(na) => MachineState::Running {
                    pc: pc + 1,
                    stack: stack.drop_last().push(
                        Value { bits: bits_of_int(from_u32(to_u32(na) ^ 0xFFFF_FFFF)) },
                    ),
                },
                None => MachineState::Failed {
                    error: PostScriptEvaluatorError::DomainError { operator: OpCode::Not },
                },
            }
        }
    }
}

/// Dispatch of `idiv` and `mod`: both operands must encode 32-bit integers,
/// the divisor must not be zero, and the truncating quotient or remainder
/// replaces the operands.
pub open spec fn step_intdiv(op: OpCode, pc: int, stack: Seq<Value>) -> MachineState {
    if stack.len() < 2 {
        MachineState::Failed { error: PostScriptEvaluatorError::StackUnderflow }
    } else {
        let b = stack.last().bits;
        let a = stack[stack.len() - 2].bits;
        match (int32_of(a), int32_of(b)) {
            (Some(na), Some(nb)) => if nb == 0 {
                MachineState::Failed {
                    error: PostScriptEvaluatorError::DomainError { operator: op },
                }
            } else {
                let res = if op is IntDiv {
                    trunc_div(na, nb)
                } else {
                    trunc_rem(na, nb)
                };
                MachineState::Running {
                    pc: pc + 1,
                    stack: stack.drop_last().drop_last().push(
                        Value { bits: bits_of_int(res) },
                    ),
                }
            },
            _ => MachineState::Failed {
                error: PostScriptEvaluatorError::DomainError { operator: op },
            },
        }
    }
}

/// Dispatch of `dup`: duplicates the top value.
pub open spec fn step_dup(pc: int, stack: Seq<Value>) -> MachineState {
    if stack.len() < 1 {
        MachineState::Failed { error: PostScriptEvaluatorError::StackUnderflow }
    } else if stack.len() >= MAX_STACK_SIZE {
        MachineState::Failed { error: PostScriptEvaluatorError::StackOverflow }
    } else {
        MachineState::Running { pc: pc + 1, stack: stack.push(stack.last()) }
    }
}

/// Dispatch of `pop`: discards the top value.
pub open spec fn step_pop(pc: int, stack: Seq<Value>) -> MachineState {
    if stack.len() < 1 {
        MachineState::Failed { error: PostScriptEvaluatorError::StackUnderflow }
    } else {
        MachineState::Running { pc: pc + 1, stack: stack.drop_last() }
    }
}

/// Dispatch of `exch`: swaps the top two values.
pub open spec fn step_exch(pc: int, stack: Seq<Value>) -> MachineState {
    if stack.len() < 2 {
        MachineState::Failed { error: PostScriptEvaluatorError::StackUnderflow }
    } else {
        let b = stack.last();
        let a = stack[stack.len() - 2];
        MachineState::Running { pc: pc + 1, stack: stack.drop_last().drop_last().push(b).push(a) }
    }
}

/// Dispatch of `copy`: pops the count, then duplicates the top `n` values.
/// A count that is no integer or negative is a domain error; too large a
/// count is an underflow; exceeding the capacity is an overflow.
pub open spec fn step_copyn(pc: int, stack: Seq<Value>) -> MachineState {
    if stack.len() < 1 {
        MachineState::Failed { error: PostScriptEvaluatorError::StackUnderflow }
    } else {
        let rest = stack.drop_last();
        match int_of_bits(stack.last().bits) {
            Some(nn) => if nn < 0 {
                MachineState::Failed {
                    error: PostScriptEvaluatorError::DomainError { operator: OpCode::CopyN },
                }
            } else if nn > rest.len() {
                MachineState::Failed { error: PostScriptEvaluatorError::StackUnderflow }
            } else if rest.len() + nn > MAX_STACK_SIZE {
                MachineState::Failed { error: PostScriptEvaluatorError::StackOverflow }
            } else {
                MachineState::Running {
                    pc: pc + 1,
                    stack: rest + rest.subrange(rest.len() - nn, rest.len() as int),
                }
            },
            None => MachineState::Failed {
                error: PostScriptEvaluatorError::DomainError { operator: OpCode::CopyN },
            },
        }
    }
}

/// Dispatch of `index`: pops the depth, then pushes a copy of the value that
/// many positions below the top.
pub open spec fn step_indexn(pc: int, stack: Seq<Value>) -> MachineState {
    if stack.len() < 1 {
        MachineState::Failed { error: PostScriptEvaluatorError::StackUnderflow }
    } else {
        let rest = stack.drop_last();
        match int_of_bits(stack.last().bits) {
            Some(nn) => if nn < 0 {
                MachineState::Failed {
                    error: PostScriptEvaluatorError::DomainError { operator: OpCode::IndexN },
                }
            } else if nn >= rest.len() {
                MachineState::Failed { error: PostScriptEvaluatorError::StackUnderflow }
            } else if rest.len() >= MAX_STACK_SIZE {
                MachineState::Failed { error: PostScriptEvaluatorError::StackOverflow }
            } else {
                MachineState::Running {
                    pc: pc + 1,
                    stack: rest.push(rest[rest.len() - 1 - nn]),
                }
            },
            None => MachineState::Failed {
                error: PostScriptEvaluatorError::DomainError { operator: OpCode::IndexN },
            },
        }
    }
}

/// Dispatch of `roll`: pops the rotation distance and the span, then rotates
/// the top `n` values circularly by `j` positions.
pub open spec fn step_roll(pc: int, stack: Seq<Value>) -> MachineState {
    if stack.len() < 2 {
        MachineState::Failed { error: PostScriptEvaluatorError::StackUnderflow }
    } else {
        let rest = stack.drop_last().drop_last();
        match (int_of_bits(stack[stack.len() - 2].bits), int_of_bits(stack.last().bits)) {
            (Some(nn), Some(jj)) => if nn < 0 {
                MachineState::Failed {
                    error: PostScriptEvaluatorError::DomainError { operator: OpCode::Roll },
                }
            } else if nn > rest.len() {
                MachineState::Failed { error: PostScriptEvaluatorError::StackUnderflow }
            } else {
                MachineState::Running { pc: pc + 1, stack: roll_spec(rest, nn, jj) }
            },
            _ => MachineState::Failed {
                error: PostScriptEvaluatorError::DomainError { operator: OpCode::Roll },
            },
        }
    }
}

/// Whether a popped jump target names a valid token index of a program of
/// `plen` tokens: an exact integer in `[0, plen]` (`plen` itself means
/// normal termination).
pub open spec fn valid_target(t: Value, plen: int) -> bool {
    match int_of_bits(t.bits) {
        Some(tt) => 0 <= tt && tt <= plen,
        None => false,
    }
}

/// The token index a valid jump target names.
pub open spec fn target_index(t: Value) -> int {
    match int_of_bits(t.bits) {
        Some(tt) => tt,
        None => 0,
    }
}

/// Dispatch of `jump`: pops the target and sets the program counter to it;
/// a target outside the program is an error.
pub open spec fn step_jump(plen: int, stack: Seq<Value>) -> MachineState {
    if stack.len() < 1 {
        MachineState::Failed { error: PostScriptEvaluatorError::StackUnderflow }
    } else {
        let t = stack.last();
        if valid_target(t, plen) {
            MachineState::Running { pc: target_index(t), stack: stack.drop_last() }
        } else {
            MachineState::Failed {
                error: PostScriptEvaluatorError::InvalidJumpTarget { target: t },
            }
        }
    }
}

/// Dispatch of `jump-if-zero`: pops the target, then the condition; when the
/// condition is zero the program counter is set to the target (checked for
/// validity), otherwise execution falls through and the target is ignored.
pub open spec fn step_jump_if_zero(plen: int, pc: int, stack: Seq<Value>) -> MachineState {
    if stack.len() < 2 {
        MachineState::Failed { error: PostScriptEvaluatorError::StackUnderflow }
    } else {
        let t = stack.last();
        let cond = stack[stack.len() - 2];
        let rest = stack.drop_last().drop_last();
        if is_zero(cond.bits) {
            if valid_target(t, plen) {
                MachineState::Running { pc: target_index(t), stack: rest }
            } else {
                MachineState::Failed {
                    error: PostScriptEvaluatorError::InvalidJumpTarget { target: t },
                }
            }
        } else {
            MachineState::Running { pc: pc + 1, stack: rest }
        }
    }
}

/// Dispatch of one recognized operator against the stack.
pub open spec fn apply_op(op: OpCode, plen: int, pc: int, stack: Seq<Value>) -> MachineState {
    match op {
        OpCode::Add => step_arith2(op, pc, stack),
        OpCode::Sub => step_arith2(op, pc, stack),
        OpCode::Mul => step_arith2(op, pc, stack),
        OpCode::Div => step_arith2(op, pc, stack),
        OpCode::Power => step_arith2(op, pc, stack),
        OpCode::Neg => step_arith1(op, pc, stack),
        OpCode::Abs => step_arith1(op, pc, stack),
        OpCode::Ceiling => step_arith1(op, pc, stack),
        OpCode::Floor => step_arith1(op, pc, stack),
        OpCode::Round => step_arith1(op, pc, stack),
        OpCode::Truncate => step_arith1(op, pc, stack),
        OpCode::Sqrt => step_arith1(op, pc, stack),
        OpCode::Ln => step_arith1(op, pc, stack),
        OpCode::Log => step_arith1(op, pc, stack),
        OpCode::EqualTo => step_compare(op, pc, stack),
        OpCode::NotEqualTo => step_compare(op, pc, stack),
        OpCode::GreaterThan => step_compare(op, pc, stack),
        OpCode::GreaterOrEqual => step_compare(op, pc, stack),
        OpCode::LessThan => step_compare(op, pc, stack),
        OpCode::LessOrEqual => step_compare(op, pc, stack),
        OpCode::And => step_bitword(op, pc, stack),
        OpCode::Or => step_bitword(op, pc, stack),
        OpCode::Xor => step_bitword(op, pc, stack),
        OpCode::Not => step_not(pc, stack),
        OpCode::Bitshift => step_bitshift(pc, stack),
        OpCode::IntDiv => step_intdiv(op, pc, stack),
        OpCode::Modulo => step_intdiv(op, pc, stack),
        OpCode::Dup => step_dup(pc, stack),
        OpCode::PopTop => step_pop(pc, stack),
        OpCode::Exchange => step_exch(pc, stack),
        OpCode::CopyN => step_copyn(pc, stack),
        OpCode::IndexN => step_indexn(pc, stack),
        OpCode::Roll => step_roll(pc, stack),
        OpCode::Jump => step_jump(plen, stack),
        OpCode::JumpIfZero => step_jump_if_zero(plen, pc, stack),
    }
}

/// Dispatch of the token at `pc` (which must be a valid token index):
/// literals are pushed, recognized operators applied, and an unrecognized
/// name aborts the run carrying the offending token.
pub open spec fn step_at(prog: Seq<Instruction>, pc: int, stack: Seq<Value>) -> MachineState
    recommends
        0 <= pc < prog.len(),
{
    match prog[pc] {
        Instruction::Literal(v) => if stack.len() < MAX_STACK_SIZE {
            MachineState::Running { pc: pc + 1, stack: stack.push(v) }
        } else {
            MachineState::Failed { error: PostScriptEvaluatorError::StackOverflow }
        },
        Instruction::Op(op) => apply_op(op, prog.len() as int, pc, stack),
        Instruction::Unknown(s) => MachineState::Failed {
            error: PostScriptEvaluatorError::UnknownOperator { operator: s },
        },
    }
}

/// One step of the machine: a run that has finished or failed stays as it
/// is; a counter that has reached the program's length finishes the run;
/// otherwise the current token is dispatched.
pub open spec fn step_state(prog: Seq<Instruction>, st: MachineState) -> MachineState {
    match st {
        MachineState::Running { pc, stack } => if 0 <= pc < prog.len() {
            step_at(prog, pc, stack)
        } else {
            MachineState::Done { stack }
        },
        _ => st,
    }
}

/// The machine state after `n` steps from `st`.
pub open spec fn run_n(prog: Seq<Instruction>, st: MachineState, n: nat) -> MachineState
    decreases n,
{
    if n == 0 {
        st
    } else {
        run_n(prog, step_state(prog, st), (n - 1) as nat)
    }
}

/// The state a run starts from: a fresh stack seeded with the initial
/// values, or an immediate overflow when they already exceed the capacity.
pub open spec fn init_state(initial: Seq<Value>) -> MachineState {
    if initial.len() > MAX_STACK_SIZE {
        MachineState::Failed { error: PostScriptEvaluatorError::StackOverflow }
    } else {
        MachineState::Running { pc: 0, stack: initial }
    }
}

/// A state from which the machine does not move: finished or failed.
pub open spec fn is_terminal(st: MachineState) -> bool {
    !(st is Running)
}

/// The stack a state holds, if any, is within the fixed capacity.
pub open spec fn state_within_capacity(st: MachineState) -> bool {
    match st {
        MachineState::Running { stack, .. } => stack.len() <= MAX_STACK_SIZE,
        MachineState::Done { stack } => stack.len() <= MAX_STACK_SIZE,
        MachineState::Failed { .. } => true,
    }
}

/// One step of the machine never grows the stack beyond the capacity.
pub proof fn lemma_step_within_capacity(prog: Seq<Instruction>, st: MachineState)
    requires
        state_within_capacity(st),
    ensures
        state_within_capacity(step_state(prog, st)),
{
    match st {
        MachineState::Running { pc, stack } => {
            if 0 <= pc < prog.len() && prog[pc] is Op && prog[pc]->Op_0 is Roll && stack.len()
                >= 2 {
                let rest = stack.drop_last().drop_last();
                match (
                    int_of_bits(stack[stack.len() - 2].bits),
                    int_of_bits(stack.last().bits),
                ) {
                    (Some(nn), Some(jj)) => {
                        if 0 < nn <= rest.len() {
                            assert(0 <= jj % nn < nn) by {
                                vstd::arithmetic::div_mod::lemma_mod_bound(jj, nn);
                            }
                            assert(roll_spec(rest, nn, jj).len() == rest.len());
                        }
                    },
                    _ => {},
                }
            }
        },
        _ => {},
    }
}

/// Capacity invariant law: starting from any initial value vector, the
/// stack held by every reachable machine state stays within the fixed
/// capacity of `MAX_STACK_SIZE` values.
pub proof fn lemma_run_within_capacity(prog: Seq<Instruction>, initial: Seq<Value>, n: nat)
    ensures
        state_within_capacity(run_n(prog, init_state(initial), n)),
{
    lemma_run_preserves_capacity(prog, init_state(initial), n);
}

/// The capacity bound is preserved along every run.
pub proof fn lemma_run_preserves_capacity(prog: Seq<Instruction>, st: MachineState, n: nat)
    requires
        state_within_capacity(st),
    ensures
        state_within_capacity(run_n(prog, st, n)),
    decreases n,
{
    if n > 0 {
        lemma_step_within_capacity(prog, st);
        lemma_run_preserves_capacity(prog, step_state(prog, st), (n - 1) as nat);
    }
}

/// Taking one more step equals stepping the state reached so far.
pub proof fn lemma_run_n_succ(prog: Seq<Instruction>, st: MachineState, n: nat)
    ensures
        run_n(prog, st, n + 1) == step_state(prog, run_n(prog, st, n)),
    decreases n,
{
    if n == 0 {
        assert(run_n(prog, st, 1) == run_n(prog, step_state(prog, st), 0));
        assert(run_n(prog, step_state(prog, st), 0) == step_state(prog, st));
    } else {
        lemma_run_n_succ(prog, step_state(prog, st), (n - 1) as nat);
    }
}

/// A terminal state is a fixed point of the machine.
pub proof fn lemma_terminal_fixed(prog: Seq<Instruction>, st: MachineState, n: nat)
    requires
        is_terminal(st),
    ensures
        run_n(prog, st, n) == st,
    decreases n,
{
    if n > 0 {
        lemma_terminal_fixed(prog, st, (n - 1) as nat);
    }
}

/// Determinism law: a run has at most one outcome.  Whenever the machine
/// reaches a terminal state, every longer run still shows that same state,
/// so two terminal states reached from the same start coincide.
pub proof fn lemma_run_deterministic(prog: Seq<Instruction>, st: MachineState, n: nat, m: nat)
    requires
        is_terminal(run_n(prog, st, n)),
        is_terminal(run_n(prog, st, m)),
    ensures
        run_n(prog, st, n) == run_n(prog, st, m),
    decreases n + m,
{
    if n <= m {
        lemma_terminal_reached_stable(prog, st, n, m);
    } else {
        lemma_terminal_reached_stable(prog, st, m, n);
    }
}

/// Once terminal, always terminal: any run at least as long as one that
/// reached a terminal state yields that same state.
pub proof fn lemma_terminal_reached_stable(prog: Seq<Instruction>, st: MachineState, n: nat, m: nat)
    requires
        n <= m,
        is_terminal(run_n(prog, st, n)),
    ensures
        run_n(prog, st, m) == run_n(prog, st, n),
    decreases n,
{
    if n == 0 {
        lemma_terminal_fixed(prog, st, m);
    } else {
        lemma_terminal_reached_stable(
            prog,
            step_state(prog, st),
            (n - 1) as nat,
            (m - 1) as nat,
        );
    }
}

} // verus!
