pub mod block;
pub mod evaluate_args;
pub mod evaluation_context;
pub mod evaluator;
pub mod expr;
