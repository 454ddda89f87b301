//! Kotlin code fragments for delegate-object types.
//!
//! A delegate object crosses the boundary as an opaque handle; its
//! canonical name is namespaced so that its generated helpers never
//! collide with those of a plain object of the same base name.

use vstd::prelude::*;
use vstd::string::StringExecFns;

use crate::backend::CodeOracle;
use crate::component::ComponentInterface;
use crate::delegate::DelegateObject;

verus! {

/// The conversion contract of one delegate-object type, keyed by the
/// definition's name.
#[derive(Debug, Clone)]
pub struct DelegateObjectCodeType {
    pub id: String,
}

/// The canonical name of a delegate-object type: the class label behind
/// a namespacing prefix.
pub open spec fn spec_delegate_canonical_name<O: CodeOracle>(o: O, id: Seq<char>) -> Seq<char> {
    "Delegate"@ + o.spec_class_name(id)
}

impl DelegateObjectCodeType {
    /// The contract for the delegate named `id`.
    pub fn new(id: String) -> (r: Self)
        ensures
            r.id == id,
    {
        Self { id }
    }

    /// The display name of the type in declarations.
    pub fn type_label<O: CodeOracle>(&self, oracle: &O) -> (r: String)
        ensures
            r@ == oracle.spec_class_name(self.id@),
    {
        oracle.class_name(self.id.as_str())
    }

    /// The unique, namespaced identifier that names generated helpers
    /// for this type.
    pub fn canonical_name<O: CodeOracle>(&self, oracle: &O) -> (r: String)
        ensures
            r@ == spec_delegate_canonical_name(*oracle, self.id@),
    {
        let label = self.type_label(oracle);
        String::from_str("Delegate").concat(label.as_str())
    }
}

/// The declaration-level generator for one delegate definition.
#[derive(Debug, Clone)]
pub struct KotlinDelegateObject {
    pub inner: DelegateObject,
}

impl KotlinDelegateObject {
    /// A generator over the given definition.
    pub fn new(inner: DelegateObject, _ci: &ComponentInterface) -> (r: Self)
        ensures
            r.inner == inner,
    {
        Self { inner }
    }

    /// The definition this generator renders.
    pub fn inner(&self) -> (r: &DelegateObject)
        ensures
            *r == self.inner,
    {
        &self.inner
    }
}

} // verus!
