//! Rewrites a generated kernel-binding declaration tree for a restricted
//! execution target: every foreign-import block is deleted, and each
//! eligible helper declaration found inside one is turned into an inline
//! wrapper function that reinterprets the helper's fixed call index as a
//! function pointer and forwards the call.

pub mod ast;
pub mod config;
pub mod emit;
pub mod extract;
pub mod laws;
pub mod synth;
pub mod text;

