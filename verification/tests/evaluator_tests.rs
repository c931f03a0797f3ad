//! Tests of the operator-dispatch evaluator, run against the real
//! floating-point routines.

use ps_function::OpCode;
use ps_function::PostScriptEvaluator;
use ps_function::PostScriptEvaluatorError;
use ps_function::Token;
use ps_function::Value;

const LIMIT: u64 = 10_000;

fn num(x: f64) -> Token {
    Token::Operand(Value { bits: x.to_bits() })
}

fn op(name: &str) -> Token {
    Token::Operator(name.to_string())
}

/// Runs a program on an initial stack and returns the final stack
/// bottom-first as plain floats.
fn run(program: Vec<Token>, initial: Vec<f64>) -> Result<Vec<f64>, PostScriptEvaluatorError> {
    let evaluator = PostScriptEvaluator::new(program);
    let init: Vec<Value> = initial.iter().map(|x| Value { bits: x.to_bits() }).collect();
    let mut stack = evaluator.execute(init, LIMIT)?;
    let mut out: Vec<f64> = Vec::new();
    while stack.len() > 0 {
        let v = stack.pop().unwrap();
        out.push(f64::from_bits(v.bits));
    }
    out.reverse();
    Ok(out)
}

#[test]
fn program_add_on_empty_stack() {
    assert_eq!(run(vec![num(3.0), num(4.0), op("add")], vec![]), Ok(vec![7.0]));
}

#[test]
fn program_div_by_zero_is_a_domain_error() {
    assert_eq!(
        run(vec![num(5.0), num(0.0), op("div")], vec![]),
        Err(PostScriptEvaluatorError::DomainError { operator: OpCode::Div })
    );
}

#[test]
fn second_run_on_emptied_stack_underflows() {
    let first = run(vec![num(1.0), op("pop")], vec![]).unwrap();
    assert_eq!(first, Vec::<f64>::new());
    assert_eq!(
        run(vec![op("pop")], first),
        Err(PostScriptEvaluatorError::StackUnderflow)
    );
}

#[test]
fn jump_if_zero_lands_exactly_on_target() {
    // 0:2  1:0  2:6  3:jump-if-zero  4:40  5:add  6:3  7:add
    // The condition is zero, so the counter moves to token 6, skipping the
    // literal 40 and the first add; only the post-jump arithmetic runs.
    let program = vec![
        num(2.0),
        num(0.0),
        num(6.0),
        op("jump-if-zero"),
        num(40.0),
        op("add"),
        num(3.0),
        op("add"),
    ];
    assert_eq!(run(program, vec![]), Ok(vec![5.0]));
}

#[test]
fn jump_if_zero_falls_through_on_nonzero() {
    let program = vec![
        num(2.0),
        num(1.0),
        num(6.0),
        op("jump-if-zero"),
        num(40.0),
        op("add"),
        num(3.0),
        op("add"),
    ];
    assert_eq!(run(program, vec![]), Ok(vec![45.0]));
}

#[test]
fn jump_is_unconditional() {
    // 0:3  1:jump  2:99  3:1  -- jumps over the literal 99.
    let program = vec![num(3.0), op("jump"), num(99.0), num(1.0)];
    assert_eq!(run(program, vec![]), Ok(vec![1.0]));
}

#[test]
fn jump_to_program_length_terminates_normally() {
    let program = vec![num(7.0), num(4.0), op("jump"), num(99.0)];
    assert_eq!(run(program, vec![]), Ok(vec![7.0]));
}

#[test]
fn jump_outside_program_is_invalid() {
    let err = run(vec![num(7.0), op("jump")], vec![]).unwrap_err();
    assert_eq!(
        err,
        PostScriptEvaluatorError::InvalidJumpTarget { target: Value { bits: (7.0f64).to_bits() } }
    );
    let err2 = run(vec![num(-1.0), op("jump")], vec![]).unwrap_err();
    assert!(matches!(err2, PostScriptEvaluatorError::InvalidJumpTarget { .. }));
}

#[test]
fn jump_to_fractional_target_is_invalid() {
    let err = run(vec![num(0.5), op("jump")], vec![]).unwrap_err();
    assert!(matches!(err, PostScriptEvaluatorError::InvalidJumpTarget { .. }));
}

#[test]
fn unknown_operator_carries_the_token() {
    assert_eq!(
        run(vec![num(1.0), op("frobnicate")], vec![]),
        Err(PostScriptEvaluatorError::UnknownOperator { operator: "frobnicate".to_string() })
    );
}

#[test]
fn initial_stack_is_seeded_in_order() {
    assert_eq!(run(vec![op("sub")], vec![10.0, 4.0]), Ok(vec![6.0]));
    assert_eq!(run(vec![], vec![1.0, 2.0]), Ok(vec![1.0, 2.0]));
}

#[test]
fn oversized_initial_stack_overflows() {
    let initial: Vec<f64> = (0..101).map(|i| i as f64).collect();
    assert_eq!(run(vec![], initial), Err(PostScriptEvaluatorError::StackOverflow));
}

#[test]
fn unbounded_loop_hits_the_step_ceiling() {
    // 0:0  1:jump  -- jumps back to token 0 forever.
    let program = vec![num(0.0), op("jump")];
    assert_eq!(run(program, vec![]), Err(PostScriptEvaluatorError::StepLimitExceeded));
}

#[test]
fn literal_push_overflow_aborts() {
    let initial: Vec<f64> = (0..100).map(|i| i as f64).collect();
    assert_eq!(
        run(vec![num(1.0)], initial),
        Err(PostScriptEvaluatorError::StackOverflow)
    );
}

#[test]
fn operand_underflow_aborts() {
    assert_eq!(
        run(vec![num(1.0), op("add")], vec![]),
        Err(PostScriptEvaluatorError::StackUnderflow)
    );
}

#[test]
fn arithmetic_operators_are_exact() {
    assert_eq!(run(vec![op("sub")], vec![10.0, 4.0]), Ok(vec![6.0]));
    assert_eq!(run(vec![op("mul")], vec![2.5, 4.0]), Ok(vec![10.0]));
    assert_eq!(run(vec![op("div")], vec![1.0, 2.0]), Ok(vec![0.5]));
    assert_eq!(run(vec![op("div")], vec![3.0, 2.0]), Ok(vec![1.5]));
}

#[test]
fn power_and_logarithms() {
    assert_eq!(run(vec![op("exp")], vec![2.0, 10.0]), Ok(vec![1024.0]));
    assert_eq!(run(vec![op("ln")], vec![1.0]), Ok(vec![0.0]));
    assert_eq!(run(vec![op("log")], vec![10.0]), Ok(vec![1.0]));
    assert_eq!(run(vec![op("log")], vec![100.0]), Ok(vec![2.0]));
}

#[test]
fn power_of_negative_base_with_fractional_exponent_is_a_domain_error() {
    assert_eq!(
        run(vec![op("exp")], vec![-2.0, 0.5]),
        Err(PostScriptEvaluatorError::DomainError { operator: OpCode::Power })
    );
}

#[test]
fn sqrt_of_square() {
    assert_eq!(run(vec![op("sqrt")], vec![9.0]), Ok(vec![3.0]));
    assert_eq!(run(vec![op("sqrt")], vec![2.25]), Ok(vec![1.5]));
}

#[test]
fn sqrt_of_negative_is_a_domain_error() {
    assert_eq!(
        run(vec![op("sqrt")], vec![-4.0]),
        Err(PostScriptEvaluatorError::DomainError { operator: OpCode::Sqrt })
    );
}

#[test]
fn logarithm_of_non_positive_is_a_domain_error() {
    assert_eq!(
        run(vec![op("ln")], vec![0.0]),
        Err(PostScriptEvaluatorError::DomainError { operator: OpCode::Ln })
    );
    assert_eq!(
        run(vec![op("log")], vec![-1.0]),
        Err(PostScriptEvaluatorError::DomainError { operator: OpCode::Log })
    );
}

#[test]
fn rounding_family() {
    assert_eq!(run(vec![op("ceiling")], vec![2.2]), Ok(vec![3.0]));
    assert_eq!(run(vec![op("ceiling")], vec![-2.2]), Ok(vec![-2.0]));
    assert_eq!(run(vec![op("floor")], vec![2.7]), Ok(vec![2.0]));
    assert_eq!(run(vec![op("floor")], vec![-2.7]), Ok(vec![-3.0]));
    assert_eq!(run(vec![op("truncate")], vec![2.7]), Ok(vec![2.0]));
    assert_eq!(run(vec![op("truncate")], vec![-2.7]), Ok(vec![-2.0]));
    assert_eq!(run(vec![op("round")], vec![2.4]), Ok(vec![2.0]));
    assert_eq!(run(vec![op("round")], vec![2.5]), Ok(vec![3.0]));
    // Ties round toward positive infinity.
    assert_eq!(run(vec![op("round")], vec![-2.5]), Ok(vec![-2.0]));
}

#[test]
fn neg_and_abs() {
    assert_eq!(run(vec![op("neg")], vec![5.0]), Ok(vec![-5.0]));
    assert_eq!(run(vec![op("neg")], vec![-3.5]), Ok(vec![3.5]));
    assert_eq!(run(vec![op("abs")], vec![-7.0]), Ok(vec![7.0]));
    assert_eq!(run(vec![op("abs")], vec![7.0]), Ok(vec![7.0]));
}

#[test]
fn comparisons_yield_canonical_sentinels() {
    assert_eq!(run(vec![op("lt")], vec![3.0, 4.0]), Ok(vec![1.0]));
    assert_eq!(run(vec![op("lt")], vec![4.0, 3.0]), Ok(vec![0.0]));
    assert_eq!(run(vec![op("le")], vec![3.0, 3.0]), Ok(vec![1.0]));
    assert_eq!(run(vec![op("gt")], vec![4.0, 3.0]), Ok(vec![1.0]));
    assert_eq!(run(vec![op("ge")], vec![3.0, 4.0]), Ok(vec![0.0]));
    assert_eq!(run(vec![op("eq")], vec![2.0, 2.0]), Ok(vec![1.0]));
    assert_eq!(run(vec![op("eq")], vec![2.0, 3.0]), Ok(vec![0.0]));
    assert_eq!(run(vec![op("ne")], vec![2.0, 3.0]), Ok(vec![1.0]));
    assert_eq!(run(vec![op("ne")], vec![2.0, 2.0]), Ok(vec![0.0]));
}

#[test]
fn bitwise_operators_on_integers() {
    assert_eq!(run(vec![op("and")], vec![12.0, 10.0]), Ok(vec![8.0]));
    assert_eq!(run(vec![op("or")], vec![12.0, 10.0]), Ok(vec![14.0]));
    assert_eq!(run(vec![op("xor")], vec![12.0, 10.0]), Ok(vec![6.0]));
    assert_eq!(run(vec![op("not")], vec![5.0]), Ok(vec![-6.0]));
}

#[test]
fn boolean_sentinels_through_logic_operators() {
    assert_eq!(run(vec![op("eq"), op("not")], vec![2.0, 2.0]), Ok(vec![0.0]));
    assert_eq!(run(vec![op("eq"), op("not")], vec![1.0, 2.0]), Ok(vec![1.0]));
    assert_eq!(run(vec![op("and")], vec![1.0, 1.0]), Ok(vec![1.0]));
    assert_eq!(run(vec![op("and")], vec![1.0, 0.0]), Ok(vec![0.0]));
    assert_eq!(run(vec![op("or")], vec![0.0, 0.0]), Ok(vec![0.0]));
    assert_eq!(run(vec![op("or")], vec![1.0, 0.0]), Ok(vec![1.0]));
}

#[test]
fn bitwise_on_non_integral_operand_is_a_domain_error() {
    assert_eq!(
        run(vec![op("and")], vec![1.5, 2.0]),
        Err(PostScriptEvaluatorError::DomainError { operator: OpCode::And })
    );
    assert_eq!(
        run(vec![op("not")], vec![2.5]),
        Err(PostScriptEvaluatorError::DomainError { operator: OpCode::Not })
    );
}

#[test]
fn bitshift_left_and_right() {
    assert_eq!(run(vec![op("bitshift")], vec![1.0, 3.0]), Ok(vec![8.0]));
    assert_eq!(run(vec![op("bitshift")], vec![16.0, -2.0]), Ok(vec![4.0]));
    // A negative value keeps its sign under a right shift.
    assert_eq!(run(vec![op("bitshift")], vec![-16.0, -2.0]), Ok(vec![-4.0]));
    assert_eq!(
        run(vec![op("bitshift")], vec![1.0, 40.0]),
        Err(PostScriptEvaluatorError::DomainError { operator: OpCode::Bitshift })
    );
}

#[test]
fn integer_division_truncates_toward_zero() {
    assert_eq!(run(vec![op("idiv")], vec![7.0, 2.0]), Ok(vec![3.0]));
    assert_eq!(run(vec![op("idiv")], vec![-7.0, 2.0]), Ok(vec![-3.0]));
    assert_eq!(run(vec![op("idiv")], vec![7.0, -2.0]), Ok(vec![-3.0]));
    assert_eq!(run(vec![op("idiv")], vec![-7.0, -2.0]), Ok(vec![3.0]));
}

#[test]
fn remainder_follows_the_dividend() {
    assert_eq!(run(vec![op("mod")], vec![7.0, 3.0]), Ok(vec![1.0]));
    assert_eq!(run(vec![op("mod")], vec![-7.0, 3.0]), Ok(vec![-1.0]));
    assert_eq!(run(vec![op("mod")], vec![7.0, -3.0]), Ok(vec![1.0]));
}

#[test]
fn integer_division_domain_errors() {
    assert_eq!(
        run(vec![op("idiv")], vec![7.0, 0.0]),
        Err(PostScriptEvaluatorError::DomainError { operator: OpCode::IntDiv })
    );
    assert_eq!(
        run(vec![op("mod")], vec![7.0, 0.0]),
        Err(PostScriptEvaluatorError::DomainError { operator: OpCode::Modulo })
    );
    assert_eq!(
        run(vec![op("idiv")], vec![2.5, 2.0]),
        Err(PostScriptEvaluatorError::DomainError { operator: OpCode::IntDiv })
    );
}

#[test]
fn stack_manipulation_operators() {
    assert_eq!(run(vec![op("dup"), op("add")], vec![5.0]), Ok(vec![10.0]));
    assert_eq!(run(vec![op("exch"), op("sub")], vec![1.0, 2.0]), Ok(vec![1.0]));
    assert_eq!(run(vec![op("pop")], vec![1.0, 2.0]), Ok(vec![1.0]));
    assert_eq!(
        run(vec![num(2.0), op("copy")], vec![1.0, 2.0]),
        Ok(vec![1.0, 2.0, 1.0, 2.0])
    );
    assert_eq!(
        run(vec![num(1.0), op("index")], vec![10.0, 20.0]),
        Ok(vec![10.0, 20.0, 10.0])
    );
    assert_eq!(
        run(vec![num(3.0), num(1.0), op("roll")], vec![1.0, 2.0, 3.0]),
        Ok(vec![3.0, 1.0, 2.0])
    );
}

#[test]
fn copy_count_must_be_a_non_negative_integer() {
    assert_eq!(
        run(vec![num(-1.0), op("copy")], vec![1.0]),
        Err(PostScriptEvaluatorError::DomainError { operator: OpCode::CopyN })
    );
    assert_eq!(
        run(vec![num(0.5), op("copy")], vec![1.0]),
        Err(PostScriptEvaluatorError::DomainError { operator: OpCode::CopyN })
    );
}

#[test]
fn overflow_to_infinity_is_a_domain_error() {
    assert_eq!(
        run(vec![op("mul")], vec![1.0e308, 10.0]),
        Err(PostScriptEvaluatorError::DomainError { operator: OpCode::Mul })
    );
    assert_eq!(
        run(vec![op("add")], vec![1.0e308, 1.0e308]),
        Err(PostScriptEvaluatorError::DomainError { operator: OpCode::Add })
    );
}

#[test]
fn nan_operand_surfaces_as_a_domain_error() {
    assert_eq!(
        run(vec![op("add")], vec![f64::NAN, 1.0]),
        Err(PostScriptEvaluatorError::DomainError { operator: OpCode::Add })
    );
}

#[test]
fn tone_curve_style_program() {
    // Clamp the input to [0, 1]: x 0 lt -> jump to push 0; x 1 gt -> push 1.
    // Here simply: x dup mul (a square curve) on a few inputs.
    assert_eq!(run(vec![op("dup"), op("mul")], vec![0.5]), Ok(vec![0.25]));
    assert_eq!(run(vec![op("dup"), op("mul")], vec![0.25]), Ok(vec![0.0625]));
}
