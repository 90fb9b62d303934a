pub mod ast;
pub mod bigint;
pub mod call_info;
pub mod command;
pub mod commands;
pub mod errors;
pub mod evaluate;
pub mod par_iter_adapter;
pub mod runnable_context;
pub mod scope;
pub mod shared;
pub mod stream;
pub mod strings;
pub mod tag;
pub mod value;
