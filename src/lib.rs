//! Core of a bounded model-checking driver: the per-function lowering
//! context, and the reconciliation of per-unit verification metadata into a
//! whole-program view (harness lists, call-target restrictions, harness
//! selection and ordering).

use vstd::prelude::*;

pub mod driver;
pub mod lowering;
pub mod metadata;

verus! {

} // verus!
