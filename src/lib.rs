//! Code generation for the callable units of a Structured Text program: function
//! declarations, hoisted global constants, local bindings, entry initialization
//! and return sequences, computed from a resolved symbol index as plain values.
//!
//! - `model`: the symbol index that generation reads.
//! - `target`: what generation produces, and the shared target tables.
//! - `names`: the derived names of initializer globals and return slots.
//! - `pou_generator`: the generation functions and their specifications.
//! - `laws`: properties proved across those functions.
use vstd::prelude::*;

pub mod laws;
pub mod model;
pub mod names;
pub mod pou_generator;
pub mod target;

verus! {

} // verus!
