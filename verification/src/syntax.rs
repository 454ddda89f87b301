//! The concrete syntax tree handed in by the interface-description parser.
//!
//! Parsing source text is an external collaborator's job: this crate
//! receives declarations as the plain values below, already split into
//! identifiers, parameter lists, attributes and inheritance clauses, and
//! performs semantic validation only.

use vstd::prelude::*;
use vstd::string::StringExecFns;

verus! {

/// An unresolved type expression as written in the source.
#[derive(Debug, PartialEq, Eq)]
pub enum TypeExpr {
    U32,
    I32,
    U64,
    Bool,
    String,
    /// The `any` pass-through marker.
    Any,
    /// A reference to a named definition, to be resolved.
    Named(String),
    Optional(Box<TypeExpr>),
    Sequence(Box<TypeExpr>),
    Dictionary(Box<TypeExpr>, Box<TypeExpr>),
}

/// The return clause of an operation: `void` or a type expression.
#[derive(Debug, PartialEq, Eq)]
pub enum ReturnTypeExpr {
    Void,
    Expr(TypeExpr),
}

/// One `name=value` or bare attribute from an attribute list.
#[derive(Debug, PartialEq, Eq)]
pub enum AttrDecl {
    /// A bare marker such as `[Delegate]` or `[Error]`.
    Flag(String),
    /// A pair such as `[Throws=E]`, `[CallWith=f]` or `[Delegate=D]`.
    NamedValue(String, String),
}

/// A formal parameter of an operation.
#[derive(Debug, PartialEq, Eq)]
pub struct ArgDecl {
    pub name: String,
    pub type_expr: TypeExpr,
}

/// An operation member of an interface declaration.
#[derive(Debug, PartialEq, Eq)]
pub struct OperationDecl {
    /// `None` for an anonymous operation.
    pub name: Option<String>,
    /// A special marker (getter/setter/deleter) is present.
    pub special: bool,
    /// A modifier (static and the like) is present.
    pub modifier: bool,
    pub args: Vec<ArgDecl>,
    pub return_type: ReturnTypeExpr,
    pub attributes: Vec<AttrDecl>,
}

/// A member of an interface declaration.
#[derive(Debug, PartialEq, Eq)]
pub enum MemberDecl {
    Operation(OperationDecl),
    /// Any member kind other than a plain operation (constructors,
    /// attributes, iterables and the like).
    Other,
}

/// An `interface` declaration.
#[derive(Debug, PartialEq, Eq)]
pub struct InterfaceDecl {
    pub name: String,
    /// The parent named by an inheritance clause, if one is present.
    pub inheritance: Option<String>,
    pub attributes: Vec<AttrDecl>,
    pub members: Vec<MemberDecl>,
}

/// An `enum` declaration.
#[derive(Debug, PartialEq, Eq)]
pub struct EnumDecl {
    pub name: String,
    pub attributes: Vec<AttrDecl>,
    pub variants: Vec<String>,
}

/// One top-level definition of a compilation unit.
#[derive(Debug, PartialEq, Eq)]
pub enum DefinitionDecl {
    Interface(InterfaceDecl),
    CallbackInterface(InterfaceDecl),
    Enum(EnumDecl),
    Namespace(String),
}

/// Whether an attribute list carries the bare flag `name`.
pub open spec fn spec_has_flag(attrs: Seq<AttrDecl>, name: Seq<char>) -> bool {
    exists|i: int|
        0 <= i < attrs.len() && (#[trigger] attrs[i] matches AttrDecl::Flag(f) && f@ == name)
}

/// The value of the first `name=value` attribute called `name`, if any.
pub open spec fn spec_named_value(attrs: Seq<AttrDecl>, name: Seq<char>) -> Option<String>
    decreases attrs.len(),
{
    if attrs.len() == 0 {
        None
    } else if attrs[0] matches AttrDecl::NamedValue(n, v) && n@ == name {
        Some(attrs[0]->NamedValue_1)
    } else {
        spec_named_value(attrs.drop_first(), name)
    }
}

/// Whether an attribute list carries the bare flag `name`; the linear
/// scan every attribute-driven decision uses.
pub fn has_flag(attrs: &Vec<AttrDecl>, name: &str) -> (r: bool)
    ensures
        r == spec_has_flag(attrs@, name@),
{
    let wanted = String::from_str(name);
    let mut i: usize = 0;
    while i < attrs.len()
        invariant
            0 <= i <= attrs@.len(),
            wanted@ == name@,
            forall|j: int|
                0 <= j < i ==> !((#[trigger] attrs@[j] matches AttrDecl::Flag(f) && f@
                    == name@)),
        decreases attrs@.len() - i,
    {
        match &attrs[i] {
            AttrDecl::Flag(f) => {
                if f.eq(&wanted) {
                    return true;
                }
            },
            AttrDecl::NamedValue(_, _) => {},
        }
        i = i + 1;
    }
    false
}

/// The value of the first `name=value` attribute called `name`, if any.
pub fn named_value<'a>(attrs: &'a Vec<AttrDecl>, name: &str) -> (r: Option<&'a String>)
    ensures
        match r {
            Some(v) => spec_named_value(attrs@, name@) == Some(*v),
            None => spec_named_value(attrs@, name@) is None,
        },
{
    let wanted = String::from_str(name);
    let mut i: usize = 0;
    proof {
        assert(attrs@.skip(0) =~= attrs@);
    }
    while i < attrs.len()
        invariant
            0 <= i <= attrs@.len(),
            wanted@ == name@,
            spec_named_value(attrs@, name@) == spec_named_value(attrs@.skip(i as int), name@),
        decreases attrs@.len() - i,
    {
        match &attrs[i] {
            AttrDecl::NamedValue(n, v) => {
                if n.eq(&wanted) {
                    proof {
                        assert(attrs@.skip(i as int)[0] == attrs@[i as int]);
                    }
                    return Some(v);
                }
            },
            AttrDecl::Flag(_) => {},
        }
        proof {
            assert(attrs@.skip(i as int).drop_first() =~= attrs@.skip(i as int + 1));
            assert(attrs@.skip(i as int)[0] == attrs@[i as int]);
        }
        i = i + 1;
    }
    None
}

} // verus!
