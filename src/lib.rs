//! A small command interpreter's engine: the tokenizer, the parser that builds
//! command trees, and the decisions of the executor (which item runs next,
//! built-in commands, path handling, exit statuses). Processes, the
//! environment and input are left to the caller.

pub mod builtins;
pub mod command;
pub mod executor;
pub mod parser;
pub mod paths;
pub mod text;
pub mod token;
pub mod tokenizer;
