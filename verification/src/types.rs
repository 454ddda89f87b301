//! The closed universe of semantic types.
//!
//! Every type reference in a validated component resolves to a [`Type`].
//! Types are immutable values, compared structurally; a named variant
//! (record, enum, error, object, delegate object, callback interface)
//! refers to its definition by name, never by ownership.

use vstd::prelude::*;

verus! {

/// A resolved semantic type.
#[derive(Debug, PartialEq, Eq, Hash)]
pub enum Type {
    UInt32,
    Int32,
    UInt64,
    Boolean,
    String,
    Record(String),
    Enum(String),
    Error(String),
    Object(String),
    DelegateObject(String),
    CallbackInterface(String),
    Optional(Box<Type>),
    Sequence(Box<Type>),
    Dictionary(Box<Type>, Box<Type>),
}

impl Clone for Type {
    fn clone(&self) -> (res: Self)
        ensures
            res == *self,
        decreases *self,
    {
        match self {
            Type::UInt32 => Type::UInt32,
            Type::Int32 => Type::Int32,
            Type::UInt64 => Type::UInt64,
            Type::Boolean => Type::Boolean,
            Type::String => Type::String,
            Type::Record(n) => Type::Record(n.clone()),
            Type::Enum(n) => Type::Enum(n.clone()),
            Type::Error(n) => Type::Error(n.clone()),
            Type::Object(n) => Type::Object(n.clone()),
            Type::DelegateObject(n) => Type::DelegateObject(n.clone()),
            Type::CallbackInterface(n) => Type::CallbackInterface(n.clone()),
            Type::Optional(inner) => Type::Optional(Box::new((**inner).clone())),
            Type::Sequence(inner) => Type::Sequence(Box::new((**inner).clone())),
            Type::Dictionary(k, v) => Type::Dictionary(
                Box::new((**k).clone()),
                Box::new((**v).clone()),
            ),
        }
    }
}

/// The return-type descriptor of a method: `void`, a concrete type, or
/// the pass-through marker, which a delegate method may declare to hand
/// the delegating method's own declared type back to it.
#[derive(Debug, PartialEq, Eq, Hash)]
pub enum ReturnType {
    Void,
    Passthrough,
    Type(Type),
}

impl Clone for ReturnType {
    fn clone(&self) -> (res: Self)
        ensures
            res == *self,
    {
        match self {
            ReturnType::Void => ReturnType::Void,
            ReturnType::Passthrough => ReturnType::Passthrough,
            ReturnType::Type(t) => ReturnType::Type(t.clone()),
        }
    }
}

} // verus!
