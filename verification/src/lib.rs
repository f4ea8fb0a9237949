//! A builder-pattern synthesizer: from a structural description of a record
//! type's fields (name, declared type expression, per-field directives) it
//! derives a builder that constructs the record incrementally and validates
//! completeness before producing the final value.
//!
//! The pipeline runs extractor -> classifier -> resolver -> synthesizer; the
//! synthesized plan is interpreted at run time by a builder whose terminal
//! `build` operation enforces required-field presence.

pub mod builder;
pub mod data_traits;
pub mod directive;
pub mod errors;
pub mod exercises;
pub mod market;
pub mod schema;
pub mod shape;
pub mod synth;
pub mod text;

use vstd::prelude::*;

verus! {

} // verus!
