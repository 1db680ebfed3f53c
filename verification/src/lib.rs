//! Calling-convention normalisation and type inference for decompiled
//! scripts of a stack-oriented virtual machine.
//!
//! A decoder turns the bytecode of a script function into statements that
//! carry no types yet. This library takes it from there:
//!
//! - [`scope`] is the symbol table, a stack of layers from addresses to
//!   names and from names to types;
//! - [`capture`] writes out the arguments that calls of script functions
//!   pass implicitly;
//! - [`infer`] finds the types of the variables from their uses, and
//!   rewrites declarations and literals to fit;
//! - [`decompile`] puts the two passes together for the main function of a
//!   map.
//!
//! [`model`] says what the inference computes, as a function on values;
//! [`measure`], [`laws`], [`idempotence`] and [`propagation`] prove what
//! holds of it.

pub mod ast;
pub mod capture;
pub mod datatype;
pub mod decompile;
pub mod error;
pub mod idempotence;
pub mod infer;
pub mod laws;
pub mod measure;
pub mod model;
pub mod propagation;
pub mod scope;

pub use decompile::decompile_map;
pub use error::Error;
pub use scope::Scope;
