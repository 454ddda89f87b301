//! Kotlin code fragments for callback-interface types.
//!
//! A callback interface crosses the boundary as an opaque handle, never
//! as inline-encoded data: every conversion routes through a dedicated
//! converter object that generated bootstrap code must register with
//! the shared runtime exactly once, before any value of the type
//! crosses. Because foreign threads may invoke a callback concurrently,
//! the generated proxy serializes dispatch through a reentrant lock,
//! and the symbols it needs are surfaced as visible imports.

use vstd::prelude::*;
use vstd::string::StringExecFns;

use crate::backend::{CodeOracle, Literal};
use crate::component::{CallbackInterface, ComponentInterface};

verus! {

/// The conversion contract of one callback-interface type, keyed by the
/// definition's name.
#[derive(Debug, Clone)]
pub struct CallbackInterfaceCodeType {
    pub id: String,
}

/// The canonical name of a callback-interface type: the class label
/// behind a namespacing prefix.
pub open spec fn spec_canonical_name<O: CodeOracle>(o: O, id: Seq<char>) -> Seq<char> {
    "CallbackInterface"@ + o.spec_class_name(id)
}

/// The name of the converter object generated for a callback-interface
/// type.
pub open spec fn spec_ffi_converter_name<O: CodeOracle>(o: O, id: Seq<char>) -> Seq<char> {
    "FfiConverter"@ + spec_canonical_name(o, id)
}

impl CallbackInterfaceCodeType {
    /// The contract for the callback interface named `id`.
    pub fn new(id: String) -> (r: Self)
        ensures
            r.id == id,
    {
        Self { id }
    }

    /// The display name of the type in declarations.
    pub fn type_label<O: CodeOracle>(&self, oracle: &O) -> (r: String)
        ensures
            r@ == oracle.spec_class_name(self.id@),
    {
        oracle.class_name(self.id.as_str())
    }

    /// The unique, namespaced identifier that names generated helpers
    /// for this type.
    pub fn canonical_name<O: CodeOracle>(&self, oracle: &O) -> (r: String)
        ensures
            r@ == spec_canonical_name(*oracle, self.id@),
    {
        let label = self.type_label(oracle);
        String::from_str("CallbackInterface").concat(label.as_str())
    }

    /// The name of this type's converter object.
    pub fn ffi_converter_name<O: CodeOracle>(&self, oracle: &O) -> (r: String)
        ensures
            r@ == spec_ffi_converter_name(*oracle, self.id@),
    {
        let canonical = self.canonical_name(oracle);
        String::from_str("FfiConverter").concat(canonical.as_str())
    }

    /// A compile-time literal of this type. A callback-interface type
    /// structurally has no literals, so this query has no answer on any
    /// input and a generator must never ask it: a call is a programming
    /// error of the calling backend — the fatal class, never a
    /// user-facing failure — and a caller that unwraps the answer stops
    /// there. Verified code does not abort, so the contract states the
    /// absence of an answer rather than forbidding the call.
    pub fn literal<O: CodeOracle>(&self, _oracle: &O, _literal: &Literal) -> (r: Option<String>)
        ensures
            r is None,
    {
        None
    }

    /// The expression serializing the named value across the boundary.
    pub fn lower<O: CodeOracle>(&self, oracle: &O, nm: &String) -> (r: String)
        ensures
            r@ == spec_ffi_converter_name(*oracle, self.id@) + ".lower("@ + oracle.spec_var_name(
                nm@,
            ) + ")"@,
    {
        let var = oracle.var_name(nm.as_str());
        self.ffi_converter_name(oracle).concat(".lower(").concat(var.as_str()).concat(")")
    }

    /// The statement writing the named value into an output stream.
    pub fn write<O: CodeOracle>(&self, oracle: &O, nm: &String, target: &String) -> (r: String)
        ensures
            r@ == spec_ffi_converter_name(*oracle, self.id@) + ".write("@ + oracle.spec_var_name(
                nm@,
            ) + ", "@ + target@ + ")"@,
    {
        let var = oracle.var_name(nm.as_str());
        self.ffi_converter_name(oracle).concat(".write(").concat(var.as_str()).concat(
            ", ",
        ).concat(target.as_str()).concat(")")
    }

    /// The expression deserializing a boundary-encoded value.
    pub fn lift<O: CodeOracle>(&self, oracle: &O, nm: &String) -> (r: String)
        ensures
            r@ == spec_ffi_converter_name(*oracle, self.id@) + ".lift("@ + nm@ + ")"@,
    {
        self.ffi_converter_name(oracle).concat(".lift(").concat(nm.as_str()).concat(")")
    }

    /// The expression reading the next value of this type from an input
    /// stream, consuming it.
    pub fn read<O: CodeOracle>(&self, oracle: &O, nm: &String) -> (r: String)
        ensures
            r@ == spec_ffi_converter_name(*oracle, self.id@) + ".read("@ + nm@ + ")"@,
    {
        self.ffi_converter_name(oracle).concat(".read(").concat(nm.as_str()).concat(")")
    }

    /// One-time per-type support code: for a callback interface it
    /// points at the shared template that defines the proxy machinery.
    pub fn helper_code<O: CodeOracle>(&self, oracle: &O) -> (r: Option<String>)
        ensures
            r matches Some(s) && s@ == "// Helper code for "@ + oracle.spec_class_name(self.id@)
                + " callback interface is found in CallbackInterfaceTemplate.kt"@,
    {
        let label = self.type_label(oracle);
        Some(
            String::from_str("// Helper code for ").concat(label.as_str()).concat(
                " callback interface is found in CallbackInterfaceTemplate.kt",
            ),
        )
    }
}

/// The declaration-level generator for one callback-interface
/// definition.
#[derive(Debug, Clone)]
pub struct KotlinCallbackInterface {
    pub inner: CallbackInterface,
}

impl KotlinCallbackInterface {
    /// A generator over the given definition.
    pub fn new(inner: CallbackInterface, _ci: &ComponentInterface) -> (r: Self)
        ensures
            r.inner == inner,
    {
        Self { inner }
    }

    /// The definition this generator renders.
    pub fn inner(&self) -> (r: &CallbackInterface)
        ensures
            *r == self.inner,
    {
        &self.inner
    }

    /// The bootstrap statement registering this type's converter with
    /// the shared runtime. Generated initialization code runs it
    /// exactly once per process, strictly before any value of the type
    /// crosses the boundary.
    pub fn initialization_code<O: CodeOracle>(&self, oracle: &O) -> (r: Option<String>)
        ensures
            r matches Some(s) && s@ == spec_ffi_converter_name(*oracle, self.inner.name@)
                + ".register(lib)"@,
    {
        let code_type = CallbackInterfaceCodeType::new(self.inner.name.clone());
        Some(code_type.ffi_converter_name(oracle).concat(".register(lib)"))
    }

    /// The support symbols the generated proxy needs, surfaced as
    /// visible imports rather than hidden globals: callback dispatch is
    /// serialized through a reentrant lock so that concurrent foreign
    /// calls, and nested re-entrant calls from within a callback, never
    /// deadlock.
    pub fn imports<O: CodeOracle>(&self, _oracle: &O) -> (r: Option<Vec<String>>)
        ensures
            r matches Some(im) && {
                &&& im@.len() == 2
                &&& im@[0]@ == "java.util.concurrent.locks.ReentrantLock"@
                &&& im@[1]@ == "kotlin.concurrent.withLock"@
            },
    {
        let mut im: Vec<String> = Vec::new();
        im.push(String::from_str("java.util.concurrent.locks.ReentrantLock"));
        im.push(String::from_str("kotlin.concurrent.withLock"));
        Some(im)
    }
}

/// The generator for the shared callback runtime-support block.
#[derive(Debug, Clone, Copy)]
pub struct KotlinCallbackInterfaceRuntime {
    pub is_needed: bool,
}

impl KotlinCallbackInterfaceRuntime {
    /// A runtime-support generator for the unit: the block is needed
    /// exactly when the unit defines at least one callback interface.
    pub fn new(ci: &ComponentInterface) -> (r: Self)
        ensures
            r.is_needed == (ci.callback_interfaces@.len() != 0),
    {
        Self { is_needed: ci.callback_interfaces.len() != 0 }
    }

    /// Whether the shared runtime-support block is emitted at all: with
    /// no callback-interface definition in the unit, the whole block is
    /// omitted at the model level, not stripped afterwards.
    pub fn is_needed(&self) -> (r: bool)
        ensures
            r == self.is_needed,
    {
        self.is_needed
    }
}

} // verus!
