//! The failure taxonomy of semantic validation and resolution.
//!
//! Every validation or resolution step returns one of these typed
//! failures; the first failure aborts compilation of the unit, carrying
//! the offending name or context.

use vstd::prelude::*;
use vstd::string::StringExecFns;

verus! {

/// The shape constraints a declaring category can violate.
#[derive(Debug, Clone, Copy, PartialEq, Eq, Structural)]
pub enum Unsupported {
    /// The declaration carries an inheritance clause.
    Inheritance,
    /// A member is not a plain operation.
    MemberKind,
    /// An operation declares one or more formal parameters.
    Arguments,
    /// An operation carries a special or modifier marker
    /// (getter/setter/static and the like).
    Modifiers,
}

/// A typed validation or resolution failure.
#[derive(Debug, PartialEq, Eq)]
pub enum BuildError {
    /// A structurally unsupported declaration for its category.
    UnsupportedFeature(Unsupported),
    /// An anonymous member or a malformed attribute; the payload is a
    /// description of what was malformed.
    InvalidDefinition(String),
    /// A member name that collides with the reserved constructor
    /// identifier; the payload is the offending name.
    ReservedName(String),
    /// A repeated name within one scope; the payload is the repeated name.
    DuplicateDefinition(String),
    /// A type reference that does not resolve to a known definition;
    /// the payload is the unresolved name.
    TypeResolution(String),
}

/// The mathematical shape of a [`BuildError`].
pub enum ErrorModel {
    UnsupportedFeature(Unsupported),
    InvalidDefinition(Seq<char>),
    ReservedName(Seq<char>),
    DuplicateDefinition(Seq<char>),
    TypeResolution(Seq<char>),
}

impl View for BuildError {
    type V = ErrorModel;

    open spec fn view(&self) -> ErrorModel {
        match self {
            BuildError::UnsupportedFeature(u) => ErrorModel::UnsupportedFeature(*u),
            BuildError::InvalidDefinition(s) => ErrorModel::InvalidDefinition(s@),
            BuildError::ReservedName(s) => ErrorModel::ReservedName(s@),
            BuildError::DuplicateDefinition(s) => ErrorModel::DuplicateDefinition(s@),
            BuildError::TypeResolution(s) => ErrorModel::TypeResolution(s@),
        }
    }
}

/// The report text of an error model, as [`BuildError::message`] renders it.
pub open spec fn spec_message(e: ErrorModel) -> Seq<char> {
    match e {
        ErrorModel::UnsupportedFeature(Unsupported::Inheritance) =>
            "interface inheritence is not supported"@,
        ErrorModel::UnsupportedFeature(Unsupported::MemberKind) =>
            "no support for interface member type yet"@,
        ErrorModel::UnsupportedFeature(Unsupported::Arguments) =>
            "custom method arguments are not supported"@,
        ErrorModel::UnsupportedFeature(Unsupported::Modifiers) =>
            "method modifiers are not supported"@,
        ErrorModel::InvalidDefinition(what) => what,
        ErrorModel::ReservedName(_) =>
            "the method name \"new\" is reserved for the default constructor"@,
        ErrorModel::DuplicateDefinition(name) =>
            "Duplicate interface member name: \""@ + name + "\""@,
        ErrorModel::TypeResolution(name) => "unresolved type name: \""@ + name + "\""@,
    }
}

impl BuildError {
    /// The human-readable report of the failure, built from the
    /// offending name or context.
    pub fn message(&self) -> (r: String)
        ensures
            r@ == spec_message(self@),
    {
        match self {
            BuildError::UnsupportedFeature(Unsupported::Inheritance) => String::from_str(
                "interface inheritence is not supported",
            ),
            BuildError::UnsupportedFeature(Unsupported::MemberKind) => String::from_str(
                "no support for interface member type yet",
            ),
            BuildError::UnsupportedFeature(Unsupported::Arguments) => String::from_str(
                "custom method arguments are not supported",
            ),
            BuildError::UnsupportedFeature(Unsupported::Modifiers) => String::from_str(
                "method modifiers are not supported",
            ),
            BuildError::InvalidDefinition(what) => what.clone(),
            BuildError::ReservedName(_) => String::from_str(
                "the method name \"new\" is reserved for the default constructor",
            ),
            BuildError::DuplicateDefinition(name) => String::from_str(
                "Duplicate interface member name: \"",
            ).concat(name.as_str()).concat("\""),
            BuildError::TypeResolution(name) => String::from_str(
                "unresolved type name: \"",
            ).concat(name.as_str()).concat("\""),
        }
    }
}

} // verus!
