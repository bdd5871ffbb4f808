//! Makes variants of a WebAssembly module by stacking random mutations.
//!
//! A search ([`stacking`]) asks a mutator ([`mutation`]) for variants of a
//! module, passes over those that are in a cache on disk ([`cache`]), has the
//! others compared with the original ([`evaluation`]), and reports those that
//! behave the same ([`report`]). What takes a running module, a process or a
//! file is done elsewhere: the functions here say what is to be done next, and
//! are told what came of it.

pub mod cache;
pub mod chance;
pub mod command;
pub mod digest;
pub mod evaluation;
pub mod execution;
pub mod metadata;
pub mod mutation;
pub mod record;
pub mod report;
pub mod stacking;
pub mod stat;
pub mod text;
pub mod value;
