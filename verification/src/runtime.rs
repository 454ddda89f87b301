//! The model of per-type converter registration.
//!
//! Every delegate and callback-interface type crosses the boundary
//! through a dedicated converter that generated bootstrap code registers
//! with the shared runtime under the type's canonical name. Registration
//! is an explicit initialization step, invoked before any value of the
//! type crosses, and it is at-most-once and idempotent: any call after
//! the first is a no-op, never an error.

use vstd::prelude::*;

use crate::registry::spec_contains_name;

verus! {

/// The set of canonical names whose converters have been registered, in
/// first-registration order.
#[derive(Debug)]
pub struct ConverterRegistry {
    pub registered: Vec<String>,
}

/// The registration table after registering `n`: unchanged when `n` is
/// already present, extended by `n` otherwise.
pub open spec fn spec_register_once(s: Seq<String>, n: String) -> Seq<String> {
    if spec_contains_name(s, n@) {
        s
    } else {
        s.push(n)
    }
}

impl ConverterRegistry {
    /// A runtime with no converter registered yet.
    pub fn new() -> (r: Self)
        ensures
            r.registered@.len() == 0,
    {
        Self { registered: Vec::new() }
    }

    /// Whether the converter named `n` has been registered.
    pub fn is_registered(&self, n: &String) -> (r: bool)
        ensures
            r == spec_contains_name(self.registered@, n@),
    {
        crate::registry::contains_name(&self.registered, n)
    }

    /// Registers the converter named `n`: the first call enters it, and
    /// every later call for the same name leaves the table unchanged and
    /// reports no error.
    pub fn register(&mut self, n: &String)
        ensures
            final(self).registered@ == spec_register_once(old(self).registered@, *n),
            spec_contains_name(final(self).registered@, n@),
    {
        if !self.is_registered(n) {
            self.registered.push(n.clone());
            proof {
                assert(self.registered@[self.registered@.len() - 1]@ == n@);
            }
        }
    }
}

/// Registration is idempotent at the model level: registering a name
/// twice leaves exactly the table that registering it once leaves.
pub proof fn lemma_register_idempotent(s: Seq<String>, n: String)
    ensures
        spec_register_once(spec_register_once(s, n), n) == spec_register_once(s, n),
{
    if !spec_contains_name(s, n@) {
        assert(spec_contains_name(s.push(n), n@)) by {
            assert(s.push(n)[s.len() as int]@ == n@);
        }
    }
}

} // verus!
