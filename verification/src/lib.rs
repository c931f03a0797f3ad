//! A verified PostScript (PDF Type-4) calculator function engine: a bounded
//! evaluation stack and an operator-dispatch evaluator that interprets a flat,
//! pre-tokenized program against that stack.

pub mod arith;
pub mod laws;
pub mod machine;
pub mod post_script_evaluator;
pub mod post_script_stack;
pub mod value;

pub use machine::Instruction;
pub use machine::OpCode;
pub use machine::PostScriptEvaluatorError;
pub use machine::Token;
pub use post_script_evaluator::PostScriptEvaluator;
pub use post_script_stack::PostScriptStack;
pub use post_script_stack::PostScriptStackError;
pub use value::Value;
