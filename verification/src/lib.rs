//! A small WebAssembly text-format REPL engine: values, integer arithmetic,
//! transactional containers (commit / rollback), a call stack of typed
//! frames, an instruction handler, an abstract machine that gives running
//! code its meaning, and an executor that follows it.
//!
//! Floating-point arithmetic is not carried out by this crate: float values
//! travel as IEEE-754 bit patterns and every float computation goes through the
//! `FloatOps` interface that the embedding program supplies; the meaning of a
//! run takes the answers of that interface as an input.

pub mod error;
pub mod ops;
pub mod op;
pub mod integer;
pub mod fmt;
pub mod model;
pub mod value;
pub mod stack;
pub mod dict;
pub mod list;
pub mod elements;
pub mod locals;
pub mod call_stack;
pub mod response;
pub mod handler;
pub mod semantics;
pub mod executor;
pub mod group;
pub mod preprocessor;
pub mod analyzer;
pub mod syntax;
