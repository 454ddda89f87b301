//! The Kotlin backend: the reference realization of a per-target code
//! generator for callback-interface and delegate definitions.

use vstd::prelude::*;
use vstd::string::StringExecFns;

use crate::backend::CodeOracle;

pub mod callback_interface;
pub mod delegate;

verus! {

/// An oracle that hands identifiers through unchanged. Target-specific
/// respelling of names belongs to the emission layer's filters; the
/// model layer works with the names the interface description declares.
#[derive(Debug, Clone, Copy, PartialEq, Eq, Structural)]
pub struct VerbatimOracle;

impl CodeOracle for VerbatimOracle {
    open spec fn spec_class_name(&self, nm: Seq<char>) -> Seq<char> {
        nm
    }

    open spec fn spec_var_name(&self, nm: Seq<char>) -> Seq<char> {
        nm
    }

    fn class_name(&self, nm: &str) -> (r: String) {
        String::from_str(nm)
    }

    fn var_name(&self, nm: &str) -> (r: String) {
        String::from_str(nm)
    }
}

/// Canonical names are namespaced so that helper code generated for a
/// delegate or callback-interface type can never collide with helper
/// code for a plain object of the same base name, nor with each other:
/// whatever the base label, the three spellings differ pairwise.
pub proof fn lemma_canonical_names_namespaced(label: Seq<char>)
    ensures
        "Delegate"@ + label != label,
        "CallbackInterface"@ + label != label,
        "Delegate"@ + label != "CallbackInterface"@ + label,
{
    reveal_strlit("Delegate");
    reveal_strlit("CallbackInterface");
    assert(("Delegate"@ + label).len() != label.len());
    assert(("CallbackInterface"@ + label).len() != label.len());
    assert(("Delegate"@ + label)[0] == 'D');
    assert(("CallbackInterface"@ + label)[0] == 'C');
}

} // verus!
