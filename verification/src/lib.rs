//! Collects the declarations of a C translation unit, as libclang presents
//! them, into the structures from which bindings are written.
//!
//! libclang itself is never called here. The program around this library asks
//! libclang its questions and hands the answers over as the plain values of
//! [`clang`].

pub mod clang;
pub mod context;
pub mod convert;
pub mod laws;
pub mod names;
pub mod option_laws;
pub mod options;
pub mod run;
pub mod text;
pub mod types;
pub mod visit;
