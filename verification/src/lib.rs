//! Semantic model and code-generation core for a cross-language
//! interface-definition compiler.
//!
//! The crate turns declarations from an interface-description source
//! (supplied as a plain syntax tree) into a validated [`component::ComponentInterface`],
//! resolves delegation between object methods and delegate methods, and
//! describes, per semantic type, how values are carried across the
//! foreign-function boundary.

use vstd::prelude::*;

pub mod backend;
pub mod codec;
pub mod component;
pub mod delegate;
pub mod errors;
pub mod gen_kotlin;
pub mod object;
pub mod registry;
pub mod runtime;
pub mod sample;
pub mod syntax;
pub mod types;

verus! {

/// The identifier reserved for an object's default constructor; no
/// delegate method may carry it.
pub open spec fn reserved_constructor_name() -> Seq<char> {
    "new"@
}

} // verus!
