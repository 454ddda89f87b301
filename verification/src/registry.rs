//! The type registry and resolver.
//!
//! A registry lists, per definition category, the names a compilation
//! unit declares. It is populated in full before any type expression is
//! resolved, so that a reference may point at a definition declared
//! later in the source. Resolution maps every type expression to a
//! canonical semantic [`Type`] and reports an unresolved name as a
//! [`BuildError::TypeResolution`] failure.

use vstd::prelude::*;

use crate::errors::BuildError;
use crate::syntax::{ReturnTypeExpr, TypeExpr};
use crate::types::{ReturnType, Type};

verus! {

/// The names a compilation unit declares, by definition category.
#[derive(Debug)]
pub struct TypeRegistry {
    pub delegates: Vec<String>,
    pub objects: Vec<String>,
    pub callback_interfaces: Vec<String>,
    pub enums: Vec<String>,
    pub errors: Vec<String>,
    pub records: Vec<String>,
}

/// The mathematical shape of a [`TypeRegistry`]: per category, the
/// declared names in registration order.
#[verifier::ext_equal]
pub struct RegistryModel {
    pub delegates: Seq<String>,
    pub objects: Seq<String>,
    pub callback_interfaces: Seq<String>,
    pub enums: Seq<String>,
    pub errors: Seq<String>,
    pub records: Seq<String>,
}

impl View for TypeRegistry {
    type V = RegistryModel;

    open spec fn view(&self) -> RegistryModel {
        RegistryModel {
            delegates: self.delegates@,
            objects: self.objects@,
            callback_interfaces: self.callback_interfaces@,
            enums: self.enums@,
            errors: self.errors@,
            records: self.records@,
        }
    }
}

/// Whether some string of `names` reads `n`.
pub open spec fn spec_contains_name(names: Seq<String>, n: Seq<char>) -> bool {
    exists|i: int| 0 <= i < names.len() && #[trigger] names[i]@ == n
}

/// The built-in type a bare name spells, before any registry lookup:
/// the primitive spellings of the interface-description language.
pub open spec fn spec_builtin_type(n: Seq<char>) -> Option<Type> {
    if n == "u32"@ {
        Some(Type::UInt32)
    } else if n == "i32"@ {
        Some(Type::Int32)
    } else if n == "u64"@ {
        Some(Type::UInt64)
    } else if n == "bool"@ || n == "boolean"@ {
        Some(Type::Boolean)
    } else if n == "string"@ {
        Some(Type::String)
    } else {
        None
    }
}

/// The semantic type a bare name resolves to: a built-in spelling
/// first, then a lookup category by category; `None` when no definition
/// carries the name.
pub open spec fn spec_resolve_name(reg: RegistryModel, n: String) -> Option<Type> {
    if spec_builtin_type(n@) is Some {
        spec_builtin_type(n@)
    } else if spec_contains_name(reg.errors, n@) {
        Some(Type::Error(n))
    } else if spec_contains_name(reg.enums, n@) {
        Some(Type::Enum(n))
    } else if spec_contains_name(reg.records, n@) {
        Some(Type::Record(n))
    } else if spec_contains_name(reg.delegates, n@) {
        Some(Type::DelegateObject(n))
    } else if spec_contains_name(reg.callback_interfaces, n@) {
        Some(Type::CallbackInterface(n))
    } else if spec_contains_name(reg.objects, n@) {
        Some(Type::Object(n))
    } else {
        None
    }
}

/// The resolution of a type expression: the semantic type it denotes,
/// or the first unresolved name in it, leftmost first. The `any`
/// pass-through marker denotes no type of its own and is unresolved
/// here; only a return clause accepts it.
pub open spec fn spec_resolve(reg: RegistryModel, e: TypeExpr) -> Result<Type, Seq<char>>
    decreases e,
{
    match e {
        TypeExpr::U32 => Ok(Type::UInt32),
        TypeExpr::I32 => Ok(Type::Int32),
        TypeExpr::U64 => Ok(Type::UInt64),
        TypeExpr::Bool => Ok(Type::Boolean),
        TypeExpr::String => Ok(Type::String),
        TypeExpr::Any => Err("any"@),
        TypeExpr::Named(n) => match spec_resolve_name(reg, n) {
            Some(t) => Ok(t),
            None => Err(n@),
        },
        TypeExpr::Optional(inner) => match spec_resolve(reg, *inner) {
            Ok(t) => Ok(Type::Optional(Box::new(t))),
            Err(n) => Err(n),
        },
        TypeExpr::Sequence(inner) => match spec_resolve(reg, *inner) {
            Ok(t) => Ok(Type::Sequence(Box::new(t))),
            Err(n) => Err(n),
        },
        TypeExpr::Dictionary(k, v) => match (spec_resolve(reg, *k), spec_resolve(reg, *v)) {
            (Ok(kt), Ok(vt)) => Ok(Type::Dictionary(Box::new(kt), Box::new(vt))),
            (Err(n), _) => Err(n),
            (_, Err(n)) => Err(n),
        },
    }
}

/// The resolution of a return clause: an absent return type carries no
/// type — whether written as a void clause or as the bare name `void` —
/// the `any` marker becomes the pass-through descriptor, and anything
/// else is resolved as a type expression.
pub open spec fn spec_resolve_return(reg: RegistryModel, e: ReturnTypeExpr) -> Result<
    ReturnType,
    Seq<char>,
> {
    match e {
        ReturnTypeExpr::Void => Ok(ReturnType::Void),
        ReturnTypeExpr::Expr(TypeExpr::Any) => Ok(ReturnType::Passthrough),
        ReturnTypeExpr::Expr(te) => if te matches TypeExpr::Named(n) && n@ == "void"@ {
            Ok(ReturnType::Void)
        } else {
            match spec_resolve(reg, te) {
                Ok(t) => Ok(ReturnType::Type(t)),
                Err(n) => Err(n),
            }
        },
    }
}

pub fn contains_name(names: &Vec<String>, n: &String) -> (r: bool)
    ensures
        r == spec_contains_name(names@, n@),
{
    let mut i: usize = 0;
    while i < names.len()
        invariant
            0 <= i <= names@.len(),
            forall|j: int| 0 <= j < i ==> #[trigger] names@[j]@ != n@,
        decreases names@.len() - i,
    {
        if names[i].eq(n) {
            return true;
        }
        i = i + 1;
    }
    false
}

/// The built-in type a bare name spells, if any.
fn builtin_type(n: &String) -> (r: Option<Type>)
    ensures
        r == spec_builtin_type(n@),
{
    if n.eq(&String::from_str("u32")) {
        Some(Type::UInt32)
    } else if n.eq(&String::from_str("i32")) {
        Some(Type::Int32)
    } else if n.eq(&String::from_str("u64")) {
        Some(Type::UInt64)
    } else if n.eq(&String::from_str("bool")) {
        Some(Type::Boolean)
    } else if n.eq(&String::from_str("boolean")) {
        Some(Type::Boolean)
    } else if n.eq(&String::from_str("string")) {
        Some(Type::String)
    } else {
        None
    }
}

impl TypeRegistry {
    /// A registry with no names in any category.
    pub fn new() -> (r: TypeRegistry)
        ensures
            r.delegates@.len() == 0,
            r.objects@.len() == 0,
            r.callback_interfaces@.len() == 0,
            r.enums@.len() == 0,
            r.errors@.len() == 0,
            r.records@.len() == 0,
    {
        TypeRegistry {
            delegates: Vec::new(),
            objects: Vec::new(),
            callback_interfaces: Vec::new(),
            enums: Vec::new(),
            errors: Vec::new(),
            records: Vec::new(),
        }
    }

    /// The semantic type the bare name `n` resolves to.
    pub fn resolve_name(&self, n: &String) -> (r: Option<Type>)
        ensures
            r == spec_resolve_name(self@, *n),
    {
        if let Some(t) = builtin_type(n) {
            Some(t)
        } else if contains_name(&self.errors, n) {
            Some(Type::Error(n.clone()))
        } else if contains_name(&self.enums, n) {
            Some(Type::Enum(n.clone()))
        } else if contains_name(&self.records, n) {
            Some(Type::Record(n.clone()))
        } else if contains_name(&self.delegates, n) {
            Some(Type::DelegateObject(n.clone()))
        } else if contains_name(&self.callback_interfaces, n) {
            Some(Type::CallbackInterface(n.clone()))
        } else if contains_name(&self.objects, n) {
            Some(Type::Object(n.clone()))
        } else {
            None
        }
    }

    /// The semantic type a type expression denotes, or a
    /// [`BuildError::TypeResolution`] failure naming the first
    /// unresolved reference.
    pub fn resolve_type(&self, e: &TypeExpr) -> (r: Result<Type, BuildError>)
        ensures
            match r {
                Ok(t) => spec_resolve(self@, *e) == Ok::<Type, Seq<char>>(t),
                Err(be) => {
                    &&& be matches BuildError::TypeResolution(n)
                    &&& spec_resolve(self@, *e) == Err::<Type, Seq<char>>(n@)
                },
            },
        decreases *e,
    {
        match e {
            TypeExpr::U32 => Ok(Type::UInt32),
            TypeExpr::I32 => Ok(Type::Int32),
            TypeExpr::U64 => Ok(Type::UInt64),
            TypeExpr::Bool => Ok(Type::Boolean),
            TypeExpr::String => Ok(Type::String),
            TypeExpr::Any => Err(BuildError::TypeResolution(String::from_str("any"))),
            TypeExpr::Named(n) => match self.resolve_name(n) {
                Some(t) => Ok(t),
                None => Err(BuildError::TypeResolution(n.clone())),
            },
            TypeExpr::Optional(inner) => match self.resolve_type(inner) {
                Ok(t) => Ok(Type::Optional(Box::new(t))),
                Err(be) => Err(be),
            },
            TypeExpr::Sequence(inner) => match self.resolve_type(inner) {
                Ok(t) => Ok(Type::Sequence(Box::new(t))),
                Err(be) => Err(be),
            },
            TypeExpr::Dictionary(k, v) => match self.resolve_type(k) {
                Ok(kt) => match self.resolve_type(v) {
                    Ok(vt) => Ok(Type::Dictionary(Box::new(kt), Box::new(vt))),
                    Err(be) => Err(be),
                },
                Err(be) => Err(be),
            },
        }
    }

    /// The return-type descriptor a return clause denotes, or a
    /// [`BuildError::TypeResolution`] failure.
    pub fn resolve_return_type_expression(&self, e: &ReturnTypeExpr) -> (r: Result<
        ReturnType,
        BuildError,
    >)
        ensures
            match r {
                Ok(rt) => spec_resolve_return(self@, *e) == Ok::<ReturnType, Seq<char>>(rt),
                Err(be) => {
                    &&& be matches BuildError::TypeResolution(n)
                    &&& spec_resolve_return(self@, *e) == Err::<ReturnType, Seq<char>>(n@)
                },
            },
    {
        match e {
            ReturnTypeExpr::Void => Ok(ReturnType::Void),
            ReturnTypeExpr::Expr(TypeExpr::Any) => Ok(ReturnType::Passthrough),
            ReturnTypeExpr::Expr(te) => {
                let void_spelling = String::from_str("void");
                let spells_void = match te {
                    TypeExpr::Named(n) => n.eq(&void_spelling),
                    _ => false,
                };
                if spells_void {
                    Ok(ReturnType::Void)
                } else {
                    match self.resolve_type(te) {
                        Ok(t) => Ok(ReturnType::Type(t)),
                        Err(be) => Err(be),
                    }
                }
            },
        }
    }
}

} // verus!
