//! Objects, their methods, and the delegation resolver.
//!
//! An object is an ordinary interface; any of its methods may declare a
//! call-with relation to a named delegate method and then inherit that
//! method's return and throws semantics. Resolution of the relation is
//! a pure lookup performed lazily at query time: when the referenced
//! delegate or method cannot be found, both queries answer `None`
//! rather than failing.

use vstd::prelude::*;
use vstd::string::StringExecFns;

use crate::delegate::{
    convert_operation, operation_name, spec_convert_operation, spec_find_method,
    spec_operation_name, DelegateObject,
};
use crate::errors::{BuildError, ErrorModel, Unsupported};
use crate::registry::{RegistryModel, TypeRegistry};
use crate::syntax::{InterfaceDecl, MemberDecl};
use crate::types::{ReturnType, Type};

verus! {

/// An ordinary interface definition: an opaque type that is
/// instantiated and passed around by reference, with methods called on
/// it. When tagged with a delegate binding, its methods may redirect
/// through that delegate's methods.
#[derive(Debug, Clone)]
pub struct Object {
    pub name: String,
    /// The delegate this object's methods may redirect through, when
    /// the declaration binds one.
    pub delegate_name: Option<String>,
    pub methods: Vec<Method>,
}

/// An instance method of an object, with its own declared return and
/// throws clauses and an optional call-with relation to a delegate
/// method.
#[derive(Debug, Clone)]
pub struct Method {
    pub name: String,
    pub object_name: String,
    pub return_type: ReturnType,
    pub throws: Option<String>,
    /// The delegate method this method redirects through, if any.
    pub call_with: Option<String>,
}

/// The methods an object declaration's member list converts to, left to
/// right onto `acc`; or the first failure, under the same shape rules
/// as the delegate category.
pub open spec fn spec_convert_object_members(
    reg: RegistryModel,
    oname: String,
    members: Seq<MemberDecl>,
    acc: Seq<Method>,
) -> Result<Seq<Method>, ErrorModel>
    decreases members.len(),
{
    if members.len() == 0 {
        Ok(acc)
    } else {
        match members[0] {
            MemberDecl::Other => Err(ErrorModel::UnsupportedFeature(Unsupported::MemberKind)),
            MemberDecl::Operation(op) => match spec_operation_name(op) {
                Err(e) => Err(e),
                Ok(name) => if spec_has_object_method_name(acc, name@) {
                    Err(ErrorModel::DuplicateDefinition(name@))
                } else {
                    match spec_convert_operation(reg, op) {
                        Err(e) => Err(e),
                        Ok((nm, rt, throws, call_with)) => spec_convert_object_members(
                            reg,
                            oname,
                            members.drop_first(),
                            acc.push(
                                Method {
                                    name: nm,
                                    object_name: oname,
                                    return_type: rt,
                                    throws,
                                    call_with,
                                },
                            ),
                        ),
                    }
                },
            },
        }
    }
}

/// Whether some method of `ms` is named `n`.
pub open spec fn spec_has_object_method_name(ms: Seq<Method>, n: Seq<char>) -> bool {
    exists|i: int| 0 <= i < ms.len() && #[trigger] ms[i].name@ == n
}

/// The methods an object declaration yields, or the first failure.
pub open spec fn spec_convert_object(reg: RegistryModel, decl: InterfaceDecl) -> Result<
    Seq<Method>,
    ErrorModel,
> {
    if decl.inheritance is Some {
        Err(ErrorModel::UnsupportedFeature(Unsupported::Inheritance))
    } else {
        spec_convert_object_members(reg, decl.name, decl.members@, Seq::empty())
    }
}

/// The first method of `ms` named `nm`, if any.
pub open spec fn spec_find_object_method(ms: Seq<Method>, nm: Seq<char>) -> Option<Method>
    decreases ms.len(),
{
    if ms.len() == 0 {
        None
    } else if ms[0].name@ == nm {
        Some(ms[0])
    } else {
        spec_find_object_method(ms.drop_first(), nm)
    }
}

/// The delegate a borrowed lookup result denotes.
pub open spec fn spec_opt_delegate(o: Option<&DelegateObject>) -> Option<DelegateObject> {
    match o {
        Some(d) => Some(*d),
        None => None,
    }
}

/// The effective return type of a method under delegation: the concrete
/// type the referenced delegate method declares, sourced exclusively
/// from it — except that a pass-through delegate method hands the
/// delegating method's own declared type back. Every failed lookup, and
/// a delegate method that declares no return, answer `None`.
pub open spec fn spec_delegated_return_type(m: Method, dobj: Option<DelegateObject>) -> Option<
    Type,
> {
    match (m.call_with, dobj) {
        (Some(cw), Some(d)) => match spec_find_method(d.methods@, cw@) {
            Some(dm) => match dm.return_type {
                ReturnType::Void => None,
                ReturnType::Passthrough => spec_declared_return_type(m),
                ReturnType::Type(t) => Some(t),
            },
            None => None,
        },
        _ => None,
    }
}

/// The concrete type a method's own return clause declares, if any.
pub open spec fn spec_declared_return_type(m: Method) -> Option<Type> {
    match m.return_type {
        ReturnType::Void => None,
        ReturnType::Passthrough => None,
        ReturnType::Type(t) => Some(t),
    }
}

/// The effective throws type of a method under delegation: the error
/// the referenced delegate method's throws attribute names, sourced
/// exclusively from it. Every failed lookup, and a delegate method that
/// throws nothing, answer `None`.
pub open spec fn spec_delegated_throws_type(m: Method, dobj: Option<DelegateObject>) -> Option<
    Type,
> {
    match (m.call_with, dobj) {
        (Some(cw), Some(d)) => match spec_find_method(d.methods@, cw@) {
            Some(dm) => match dm.throws {
                Some(n) => Some(Type::Error(n)),
                None => None,
            },
            None => None,
        },
        _ => None,
    }
}

/// An object declaration converted to an [`Object`], or the first
/// failure in rule order. The delegate binding, when one was declared,
/// is handed in by the caller that read the declaration's attributes.
pub fn convert_object(
    reg: &TypeRegistry,
    decl: &InterfaceDecl,
    delegate_name: Option<String>,
) -> (r: Result<Object, BuildError>)
    ensures
        match r {
            Ok(o) => {
                &&& o.name == decl.name
                &&& o.delegate_name == delegate_name
                &&& spec_convert_object(reg@, *decl) == Ok::<Seq<Method>, ErrorModel>(o.methods@)
            },
            Err(e) => spec_convert_object(reg@, *decl) matches Err(em) && em == e@,
        },
{
    if decl.inheritance.is_some() {
        return Err(BuildError::UnsupportedFeature(Unsupported::Inheritance));
    }
    let mut methods: Vec<Method> = Vec::new();
    let mut i: usize = 0;
    proof {
        assert(decl.members@.skip(0) =~= decl.members@);
        assert(methods@ =~= Seq::<Method>::empty());
    }
    while i < decl.members.len()
        invariant
            0 <= i <= decl.members@.len(),
            decl.inheritance is None,
            spec_convert_object_members(reg@, decl.name, decl.members@, Seq::empty())
                == spec_convert_object_members(
                reg@,
                decl.name,
                decl.members@.skip(i as int),
                methods@,
            ),
        decreases decl.members@.len() - i,
    {
        proof {
            assert(decl.members@.skip(i as int)[0] == decl.members@[i as int]);
            assert(decl.members@.skip(i as int).drop_first() =~= decl.members@.skip(i as int + 1));
        }
        match &decl.members[i] {
            MemberDecl::Other => {
                return Err(BuildError::UnsupportedFeature(Unsupported::MemberKind));
            },
            MemberDecl::Operation(op) => {
                let name = match operation_name(op) {
                    Ok(n) => n,
                    Err(e) => {
                        return Err(e);
                    },
                };
                if has_object_method_name(&methods, &name) {
                    return Err(BuildError::DuplicateDefinition(name));
                }
                let (m, call_with) = match convert_operation(reg, op) {
                    Ok(pair) => pair,
                    Err(e) => {
                        return Err(e);
                    },
                };
                methods.push(
                    Method {
                        name: m.name,
                        object_name: decl.name.clone(),
                        return_type: m.return_type,
                        throws: m.throws,
                        call_with,
                    },
                );
            },
        }
        i = i + 1;
    }
    Ok(Object { name: decl.name.clone(), delegate_name, methods })
}

/// Whether some method of `ms` is named `n`.
pub fn has_object_method_name(ms: &Vec<Method>, n: &String) -> (r: bool)
    ensures
        r == spec_has_object_method_name(ms@, n@),
{
    let mut i: usize = 0;
    while i < ms.len()
        invariant
            0 <= i <= ms@.len(),
            forall|j: int| 0 <= j < i ==> #[trigger] ms@[j].name@ != n@,
        decreases ms@.len() - i,
    {
        if ms[i].name.eq(n) {
            return true;
        }
        i = i + 1;
    }
    false
}

impl Object {
    /// The object's name.
    pub fn name(&self) -> (r: &str)
        ensures
            r@ == self.name@,
    {
        self.name.as_str()
    }

    /// The first method named `nm`, if any.
    pub fn find_method(&self, nm: &str) -> (r: Option<&Method>)
        ensures
            match r {
                Some(m) => spec_find_object_method(self.methods@, nm@) == Some(*m),
                None => spec_find_object_method(self.methods@, nm@) is None,
            },
    {
        let wanted = String::from_str(nm);
        let mut i: usize = 0;
        proof {
            assert(self.methods@.skip(0) =~= self.methods@);
        }
        while i < self.methods.len()
            invariant
                0 <= i <= self.methods@.len(),
                wanted@ == nm@,
                spec_find_object_method(self.methods@, nm@) == spec_find_object_method(
                    self.methods@.skip(i as int),
                    nm@,
                ),
            decreases self.methods@.len() - i,
        {
            proof {
                assert(self.methods@.skip(i as int)[0] == self.methods@[i as int]);
                assert(self.methods@.skip(i as int).drop_first() =~= self.methods@.skip(
                    i as int + 1,
                ));
            }
            if self.methods[i].name.eq(&wanted) {
                return Some(&self.methods[i]);
            }
            i = i + 1;
        }
        None
    }

    /// The object's methods, in declaration order.
    pub fn methods(&self) -> (r: Vec<&Method>)
        ensures
            r@.len() == self.methods@.len(),
            forall|i: int| 0 <= i < r@.len() ==> *r@[i] == self.methods@[i],
    {
        let mut out: Vec<&Method> = Vec::new();
        let mut i: usize = 0;
        while i < self.methods.len()
            invariant
                0 <= i <= self.methods@.len(),
                out@.len() == i,
                forall|j: int| 0 <= j < i ==> *out@[j] == self.methods@[j],
            decreases self.methods@.len() - i,
        {
            out.push(&self.methods[i]);
            i = i + 1;
        }
        out
    }
}

impl Method {
    /// The method's name.
    pub fn name(&self) -> (r: &str)
        ensures
            r@ == self.name@,
    {
        self.name.as_str()
    }

    /// The effective return type of this method under delegation,
    /// computed on demand from the referenced delegate method.
    pub fn delegated_return_type(&self, dobj: &Option<&DelegateObject>) -> (r: Option<Type>)
        ensures
            r == spec_delegated_return_type(*self, spec_opt_delegate(*dobj)),
    {
        match (&self.call_with, dobj) {
            (Some(cw), Some(d)) => match d.find_method(cw.as_str()) {
                Some(dm) => match &dm.return_type {
                    ReturnType::Void => None,
                    ReturnType::Passthrough => match &self.return_type {
                        ReturnType::Void => None,
                        ReturnType::Passthrough => None,
                        ReturnType::Type(t) => Some(t.clone()),
                    },
                    ReturnType::Type(t) => Some(t.clone()),
                },
                None => None,
            },
            _ => None,
        }
    }

    /// The effective throws type of this method under delegation,
    /// computed on demand from the referenced delegate method.
    pub fn delegated_throws_type(&self, dobj: &Option<&DelegateObject>) -> (r: Option<Type>)
        ensures
            r == spec_delegated_throws_type(*self, spec_opt_delegate(*dobj)),
    {
        match (&self.call_with, dobj) {
            (Some(cw), Some(d)) => match d.find_method(cw.as_str()) {
                Some(dm) => dm.throws_type(),
                None => None,
            },
            _ => None,
        }
    }
}

/// Delegation resolution is pure: the effective return and throws types
/// are functions of the method and the delegate value alone, so
/// repeated queries for the same method agree, and no query mutates the
/// model. Both answers are `None` when the method declares no call-with
/// relation, when no delegate is at hand, when the referenced method is
/// missing from it, and when the referenced method declares neither a
/// return nor a throws clause.
pub proof fn lemma_delegation_resolution_pure(m: Method, dobj: Option<DelegateObject>)
    ensures
        m.call_with is None ==> spec_delegated_return_type(m, dobj) is None
            && spec_delegated_throws_type(m, dobj) is None,
        dobj is None ==> spec_delegated_return_type(m, dobj) is None
            && spec_delegated_throws_type(m, dobj) is None,
        (m.call_with matches Some(cw) && dobj matches Some(d) && spec_find_method(
            d.methods@,
            cw@,
        ) is None) ==> spec_delegated_return_type(m, dobj) is None && spec_delegated_throws_type(
            m,
            dobj,
        ) is None,
        (m.call_with matches Some(cw) && dobj matches Some(d) && spec_find_method(
            d.methods@,
            cw@,
        ) matches Some(dm) && dm.return_type is Void && dm.throws is None)
            ==> spec_delegated_return_type(m, dobj) is None && spec_delegated_throws_type(
            m,
            dobj,
        ) is None,
{
}

} // verus!
