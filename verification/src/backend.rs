//! What every per-target backend works against: the naming oracle and
//! compile-time literals.

use vstd::prelude::*;

verus! {

/// The naming conventions of one target language. A backend hands an
/// oracle to every code type so that identifiers from the interface
/// description are spelled the target's way; what each method returns
/// is pinned by its spec twin, so contracts over generated fragments
/// stay exact whatever convention an oracle implements.
pub trait CodeOracle {
    /// The class name `class_name` returns for a definition name.
    spec fn spec_class_name(&self, nm: Seq<char>) -> Seq<char>;

    /// The variable name `var_name` returns for a value name.
    spec fn spec_var_name(&self, nm: Seq<char>) -> Seq<char>;

    /// A definition name spelled as the target spells type names.
    fn class_name(&self, nm: &str) -> (r: String)
        ensures
            r@ == self.spec_class_name(nm@),
    ;

    /// A value name spelled as the target spells variables.
    fn var_name(&self, nm: &str) -> (r: String)
        ensures
            r@ == self.spec_var_name(nm@),
    ;
}

/// A compile-time literal as the interface description writes it.
#[derive(Debug, Clone, PartialEq, Eq)]
pub enum Literal {
    Boolean(bool),
    Str(String),
    UInt(u64),
    Int(i64),
    Null,
    EmptySequence,
    EmptyMap,
    EnumVariant(String),
}

} // verus!
