//! A minimal object of the kind a component exposes across the
//! boundary, used by the delegation examples and their tests.

use vstd::prelude::*;

verus! {

/// An opaque object with a default constructor, a named constructor and
/// one method; the shape the delegation examples are written against.
#[derive(Debug, Clone)]
pub struct RustObject;

impl RustObject {
    /// The default constructor.
    pub fn new() -> Self {
        Self
    }

    /// A named constructor taking a configuration string, which this
    /// minimal object ignores.
    pub fn from_string(_s: String) -> Self {
        Self
    }

    /// Hands its argument back unchanged.
    pub fn identity_string(&self, s: String) -> (r: String)
        ensures
            r == s,
    {
        s
    }
}

} // verus!
