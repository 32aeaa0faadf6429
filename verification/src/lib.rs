//! The kernel of a type checker for exported environments of a dependently
//! typed proof assistant: hash-consed names, universe levels and
//! expressions, and on top of them weak head normalization, type inference
//! and definitional equality.

pub mod declar;
pub mod defeq;
pub mod error;
pub mod expr;
pub mod fuel;
pub mod hashing;
pub mod infer;
pub mod kernel;
pub mod level;
pub mod lexer;
pub mod model;
pub mod name;
pub mod parser;
pub mod sound;
pub mod store;
pub mod tc;
pub mod term;
pub mod universe;
pub mod util;
