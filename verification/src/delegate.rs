//! Delegate object definitions.
//!
//! A delegate is a named collection of zero-argument methods that other
//! objects' methods may redirect through to inherit return and throws
//! semantics. This module converts an `interface` declaration tagged as
//! a delegate into a [`DelegateObject`], enforcing the shape rules of
//! the category in order: no inheritance clause, only plain operation
//! members, no formal parameters, no special or modifier markers, a
//! name that is present and non-empty, not reserved and not repeated,
//! and a return type that resolves.

use vstd::prelude::*;
use vstd::string::StringExecFns;

use crate::errors::{BuildError, ErrorModel, Unsupported};
use crate::registry::{spec_resolve_return, RegistryModel, TypeRegistry};
use crate::syntax::{AttrDecl, InterfaceDecl, MemberDecl, OperationDecl};
use crate::types::{ReturnType, Type};

verus! {

/// A named collection of delegate methods. In the interface-description
/// source these correspond to `interface` declarations tagged as
/// delegates.
#[derive(Debug, Clone)]
pub struct DelegateObject {
    pub name: String,
    pub methods: Vec<DelegateMethod>,
}

/// One zero-argument method of a delegate. The owning delegate's name
/// is bound in a second pass, once the enclosing delegate's identity is
/// known; the throws attribute is kept as a name and resolved only when
/// queried, so that it may reference an error declared later in the
/// source.
#[derive(Debug, Clone)]
pub struct DelegateMethod {
    pub name: String,
    pub object_name: String,
    pub return_type: ReturnType,
    pub throws: Option<String>,
}

/// The validated name of an operation: the shape rules of the delegate
/// category, checked in order, and then the operation's identifier. An
/// identifier that is missing or empty is an anonymous method.
pub open spec fn spec_operation_name(op: OperationDecl) -> Result<String, ErrorModel> {
    if op.args@.len() > 0 {
        Err(ErrorModel::UnsupportedFeature(Unsupported::Arguments))
    } else if op.special || op.modifier {
        Err(ErrorModel::UnsupportedFeature(Unsupported::Modifiers))
    } else {
        match op.name {
            Option::None => Err(
                ErrorModel::InvalidDefinition("anonymous methods are not supported"@),
            ),
            Option::Some(n) => if n@.len() == 0 {
                Err(ErrorModel::InvalidDefinition("anonymous methods are not supported"@))
            } else if n@ == crate::reserved_constructor_name() {
                Err(ErrorModel::ReservedName(n@))
            } else {
                Ok(n)
            },
        }
    }
}

/// The throws and call-with names an attribute list carries, walked
/// left to right over the accumulated pair; anything but a single
/// `Throws` and a single `CallWith` pair is malformed.
pub open spec fn spec_method_attrs(
    attrs: Seq<AttrDecl>,
    throws: Option<String>,
    call_with: Option<String>,
) -> Result<(Option<String>, Option<String>), ErrorModel>
    decreases attrs.len(),
{
    if attrs.len() == 0 {
        Ok((throws, call_with))
    } else {
        match attrs[0] {
            AttrDecl::Flag(_) => Err(
                ErrorModel::InvalidDefinition("a method attribute must be Throws or CallWith"@),
            ),
            AttrDecl::NamedValue(n, v) => if n@ == "Throws"@ {
                if throws is Some {
                    Err(ErrorModel::InvalidDefinition("duplicate method attribute"@))
                } else {
                    spec_method_attrs(attrs.drop_first(), Some(v), call_with)
                }
            } else if n@ == "CallWith"@ {
                if call_with is Some {
                    Err(ErrorModel::InvalidDefinition("duplicate method attribute"@))
                } else {
                    spec_method_attrs(attrs.drop_first(), throws, Some(v))
                }
            } else {
                Err(
                    ErrorModel::InvalidDefinition(
                        "a method attribute must be Throws or CallWith"@,
                    ),
                )
            },
        }
    }
}

/// The full conversion of one operation under the delegate rules: its
/// validated name, resolved return descriptor, and captured throws and
/// call-with names, or the first failure in rule order.
pub open spec fn spec_convert_operation(reg: RegistryModel, op: OperationDecl) -> Result<
    (String, ReturnType, Option<String>, Option<String>),
    ErrorModel,
> {
    match spec_operation_name(op) {
        Err(e) => Err(e),
        Ok(name) => match spec_resolve_return(reg, op.return_type) {
            Err(n) => Err(ErrorModel::TypeResolution(n)),
            Ok(rt) => match spec_method_attrs(op.attributes@, None, None) {
                Err(e) => Err(e),
                Ok((throws, call_with)) => Ok((name, rt, throws, call_with)),
            },
        },
    }
}

/// Whether some method of `ms` is named `n`.
pub open spec fn spec_has_method_name(ms: Seq<DelegateMethod>, n: Seq<char>) -> bool {
    exists|i: int| 0 <= i < ms.len() && #[trigger] ms[i].name@ == n
}

/// The methods a member list converts to, left to right onto `acc`,
/// with every method's owning name bound to `dname`; or the first
/// failure. A member that is not a plain operation, a repeated method
/// name, and every per-operation rule abort the walk.
pub open spec fn spec_convert_members(
    reg: RegistryModel,
    dname: String,
    members: Seq<MemberDecl>,
    acc: Seq<DelegateMethod>,
) -> Result<Seq<DelegateMethod>, ErrorModel>
    decreases members.len(),
{
    if members.len() == 0 {
        Ok(acc)
    } else {
        match members[0] {
            MemberDecl::Other => Err(ErrorModel::UnsupportedFeature(Unsupported::MemberKind)),
            MemberDecl::Operation(op) => match spec_operation_name(op) {
                Err(e) => Err(e),
                Ok(name) => if spec_has_method_name(acc, name@) {
                    Err(ErrorModel::DuplicateDefinition(name@))
                } else {
                    match spec_convert_operation(reg, op) {
                        Err(e) => Err(e),
                        Ok((nm, rt, throws, _call_with)) => spec_convert_members(
                            reg,
                            dname,
                            members.drop_first(),
                            acc.push(
                                DelegateMethod {
                                    name: nm,
                                    object_name: dname,
                                    return_type: rt,
                                    throws,
                                },
                            ),
                        ),
                    }
                },
            },
        }
    }
}

/// The methods a delegate declaration yields, or the first failure: an
/// inheritance clause is refused before any member is read.
pub open spec fn spec_convert_delegate(reg: RegistryModel, decl: InterfaceDecl) -> Result<
    Seq<DelegateMethod>,
    ErrorModel,
> {
    if decl.inheritance is Some {
        Err(ErrorModel::UnsupportedFeature(Unsupported::Inheritance))
    } else {
        spec_convert_members(reg, decl.name, decl.members@, Seq::empty())
    }
}

/// The first method of `ms` named `nm`, if any.
pub open spec fn spec_find_method(ms: Seq<DelegateMethod>, nm: Seq<char>) -> Option<
    DelegateMethod,
>
    decreases ms.len(),
{
    if ms.len() == 0 {
        None
    } else if ms[0].name@ == nm {
        Some(ms[0])
    } else {
        spec_find_method(ms.drop_first(), nm)
    }
}

/// The validated name of an operation under the delegate shape rules.
pub fn operation_name(op: &OperationDecl) -> (r: Result<String, BuildError>)
    ensures
        match r {
            Ok(n) => spec_operation_name(*op) == Ok::<String, ErrorModel>(n),
            Err(e) => spec_operation_name(*op) == Err::<String, ErrorModel>(e@),
        },
{
    if op.args.len() > 0 {
        Err(BuildError::UnsupportedFeature(Unsupported::Arguments))
    } else if op.special || op.modifier {
        Err(BuildError::UnsupportedFeature(Unsupported::Modifiers))
    } else {
        match &op.name {
            Option::None => Err(
                BuildError::InvalidDefinition(
                    String::from_str("anonymous methods are not supported"),
                ),
            ),
            Option::Some(n) => {
                let empty = String::new();
                let reserved = String::from_str("new");
                proof {
                    if n@.len() == 0 {
                        assert(n@ =~= Seq::<char>::empty());
                    }
                }
                if n.eq(&empty) {
                    Err(
                        BuildError::InvalidDefinition(
                            String::from_str("anonymous methods are not supported"),
                        ),
                    )
                } else if n.eq(&reserved) {
                    Err(BuildError::ReservedName(n.clone()))
                } else {
                    Ok(n.clone())
                }
            },
        }
    }
}

/// The throws and call-with names of an attribute list.
pub fn method_attributes(attrs: &Vec<AttrDecl>) -> (r: Result<
    (Option<String>, Option<String>),
    BuildError,
>)
    ensures
        match r {
            Ok(pair) => spec_method_attrs(attrs@, None, None) == Ok::<
                (Option<String>, Option<String>),
                ErrorModel,
            >(pair),
            Err(e) => spec_method_attrs(attrs@, None, None) == Err::<
                (Option<String>, Option<String>),
                ErrorModel,
            >(e@),
        },
{
    let throws_key = String::from_str("Throws");
    let call_with_key = String::from_str("CallWith");
    let mut throws: Option<String> = None;
    let mut call_with: Option<String> = None;
    let mut i: usize = 0;
    proof {
        assert(attrs@.skip(0) =~= attrs@);
    }
    while i < attrs.len()
        invariant
            0 <= i <= attrs@.len(),
            throws_key@ == "Throws"@,
            call_with_key@ == "CallWith"@,
            spec_method_attrs(attrs@, None, None) == spec_method_attrs(
                attrs@.skip(i as int),
                throws,
                call_with,
            ),
        decreases attrs@.len() - i,
    {
        proof {
            assert(attrs@.skip(i as int)[0] == attrs@[i as int]);
            assert(attrs@.skip(i as int).drop_first() =~= attrs@.skip(i as int + 1));
        }
        match &attrs[i] {
            AttrDecl::Flag(_) => {
                return Err(
                    BuildError::InvalidDefinition(
                        String::from_str("a method attribute must be Throws or CallWith"),
                    ),
                );
            },
            AttrDecl::NamedValue(n, v) => {
                if n.eq(&throws_key) {
                    if throws.is_some() {
                        return Err(
                            BuildError::InvalidDefinition(
                                String::from_str("duplicate method attribute"),
                            ),
                        );
                    }
                    throws = Some(v.clone());
                } else if n.eq(&call_with_key) {
                    if call_with.is_some() {
                        return Err(
                            BuildError::InvalidDefinition(
                                String::from_str("duplicate method attribute"),
                            ),
                        );
                    }
                    call_with = Some(v.clone());
                } else {
                    return Err(
                        BuildError::InvalidDefinition(
                            String::from_str("a method attribute must be Throws or CallWith"),
                        ),
                    );
                }
            },
        }
        i = i + 1;
    }
    Ok((throws, call_with))
}

/// One operation converted under the delegate rules: the method, with
/// its owning name still unbound, and the call-with name the operation
/// carries, which the delegate category ignores and the object category
/// reads.
pub fn convert_operation(reg: &TypeRegistry, op: &OperationDecl) -> (r: Result<
    (DelegateMethod, Option<String>),
    BuildError,
>)
    ensures
        match r {
            Ok((m, cw)) => {
                &&& spec_convert_operation(reg@, *op) matches Ok(q)
                &&& q.0 == m.name
                &&& q.1 == m.return_type
                &&& q.2 == m.throws
                &&& q.3 == cw
                &&& m.object_name@ == Seq::<char>::empty()
            },
            Err(e) => spec_convert_operation(reg@, *op) matches Err(em) && em == e@,
        },
{
    let name = match operation_name(op) {
        Ok(n) => n,
        Err(e) => {
            return Err(e);
        },
    };
    let return_type = match reg.resolve_return_type_expression(&op.return_type) {
        Ok(rt) => rt,
        Err(e) => {
            return Err(e);
        },
    };
    let (throws, call_with) = match method_attributes(&op.attributes) {
        Ok(pair) => pair,
        Err(e) => {
            return Err(e);
        },
    };
    Ok(
        (
            DelegateMethod {
                name,
                // The owning delegate's identity is not known yet; it is
                // bound once the enclosing declaration is finalized.
                object_name: String::new(),
                return_type,
                throws,
            },
            call_with,
        ),
    )
}

/// Whether some method of `ms` is named `n`.
pub fn has_method_name(ms: &Vec<DelegateMethod>, n: &String) -> (r: bool)
    ensures
        r == spec_has_method_name(ms@, n@),
{
    let mut i: usize = 0;
    while i < ms.len()
        invariant
            0 <= i <= ms@.len(),
            forall|j: int| 0 <= j < i ==> #[trigger] ms@[j].name@ != n@,
        decreases ms@.len() - i,
    {
        if ms[i].name.eq(n) {
            return true;
        }
        i = i + 1;
    }
    false
}

/// A delegate declaration converted to a [`DelegateObject`], or the
/// first failure in rule order.
pub fn convert_delegate(reg: &TypeRegistry, decl: &InterfaceDecl) -> (r: Result<
    DelegateObject,
    BuildError,
>)
    ensures
        match r {
            Ok(d) => {
                &&& d.name == decl.name
                &&& spec_convert_delegate(reg@, *decl) == Ok::<Seq<DelegateMethod>, ErrorModel>(
                    d.methods@,
                )
            },
            Err(e) => spec_convert_delegate(reg@, *decl) matches Err(em) && em == e@,
        },
{
    if decl.inheritance.is_some() {
        return Err(BuildError::UnsupportedFeature(Unsupported::Inheritance));
    }
    let mut delegate = DelegateObject::new(decl.name.clone());
    let mut i: usize = 0;
    proof {
        assert(decl.members@.skip(0) =~= decl.members@);
        assert(delegate.methods@ =~= Seq::<DelegateMethod>::empty());
    }
    while i < decl.members.len()
        invariant
            0 <= i <= decl.members@.len(),
            decl.inheritance is None,
            delegate.name == decl.name,
            spec_convert_members(reg@, decl.name, decl.members@, Seq::empty())
                == spec_convert_members(
                reg@,
                decl.name,
                decl.members@.skip(i as int),
                delegate.methods@,
            ),
        decreases decl.members@.len() - i,
    {
        proof {
            assert(decl.members@.skip(i as int)[0] == decl.members@[i as int]);
            assert(decl.members@.skip(i as int).drop_first() =~= decl.members@.skip(i as int + 1));
        }
        match &decl.members[i] {
            MemberDecl::Other => {
                return Err(BuildError::UnsupportedFeature(Unsupported::MemberKind));
            },
            MemberDecl::Operation(op) => {
                let name = match operation_name(op) {
                    Ok(n) => n,
                    Err(e) => {
                        return Err(e);
                    },
                };
                if has_method_name(&delegate.methods, &name) {
                    return Err(BuildError::DuplicateDefinition(name));
                }
                let converted = match convert_operation(reg, op) {
                    Ok(pair) => pair,
                    Err(e) => {
                        return Err(e);
                    },
                };
                let mut method = converted.0;
                method.object_name = decl.name.clone();
                delegate.methods.push(method);
            },
        }
        i = i + 1;
    }
    Ok(delegate)
}

impl DelegateObject {
    /// A delegate with no methods yet.
    pub fn new(name: String) -> (r: Self)
        ensures
            r.name == name,
            r.methods@.len() == 0,
    {
        Self { name, methods: Vec::new() }
    }

    /// The delegate's name.
    pub fn name(&self) -> (r: &str)
        ensures
            r@ == self.name@,
    {
        self.name.as_str()
    }

    /// The semantic type this delegate defines.
    pub fn type_(&self) -> (r: Type)
        ensures
            r == Type::DelegateObject(self.name),
    {
        Type::DelegateObject(self.name.clone())
    }

    /// The delegate's methods, in declaration order.
    pub fn methods(&self) -> (r: Vec<&DelegateMethod>)
        ensures
            r@.len() == self.methods@.len(),
            forall|i: int| 0 <= i < r@.len() ==> *r@[i] == self.methods@[i],
    {
        let mut out: Vec<&DelegateMethod> = Vec::new();
        let mut i: usize = 0;
        while i < self.methods.len()
            invariant
                0 <= i <= self.methods@.len(),
                out@.len() == i,
                forall|j: int| 0 <= j < i ==> *out@[j] == self.methods@[j],
            decreases self.methods@.len() - i,
        {
            out.push(&self.methods[i]);
            i = i + 1;
        }
        out
    }

    /// The first method named `nm`, if any.
    pub fn find_method(&self, nm: &str) -> (r: Option<&DelegateMethod>)
        ensures
            match r {
                Some(m) => spec_find_method(self.methods@, nm@) == Some(*m),
                None => spec_find_method(self.methods@, nm@) is None,
            },
    {
        let wanted = String::from_str(nm);
        let mut i: usize = 0;
        proof {
            assert(self.methods@.skip(0) =~= self.methods@);
        }
        while i < self.methods.len()
            invariant
                0 <= i <= self.methods@.len(),
                wanted@ == nm@,
                spec_find_method(self.methods@, nm@) == spec_find_method(
                    self.methods@.skip(i as int),
                    nm@,
                ),
            decreases self.methods@.len() - i,
        {
            proof {
                assert(self.methods@.skip(i as int)[0] == self.methods@[i as int]);
                assert(self.methods@.skip(i as int).drop_first() =~= self.methods@.skip(
                    i as int + 1,
                ));
            }
            if self.methods[i].name.eq(&wanted) {
                return Some(&self.methods[i]);
            }
            i = i + 1;
        }
        None
    }
}

impl DelegateMethod {
    /// The method's name.
    pub fn name(&self) -> (r: &str)
        ensures
            r@ == self.name@,
    {
        self.name.as_str()
    }

    /// The method's declared return descriptor.
    pub fn return_type(&self) -> (r: &ReturnType)
        ensures
            *r == self.return_type,
    {
        &self.return_type
    }

    /// The name the throws attribute carries, if one is present.
    pub fn throws(&self) -> (r: Option<&str>)
        ensures
            match r {
                Some(s) => self.throws matches Some(t) && s@ == t@,
                None => self.throws is None,
            },
    {
        match &self.throws {
            Some(t) => Some(t.as_str()),
            None => None,
        }
    }

    /// The throws name resolved to the error type it denotes. The
    /// lookup is deferred to this query, so the name may reference an
    /// error declared later in the source than the delegate itself.
    pub fn throws_type(&self) -> (r: Option<Type>)
        ensures
            match self.throws {
                Some(n) => r == Some(Type::Error(n)),
                None => r is None,
            },
    {
        match &self.throws {
            Some(n) => Some(Type::Error(n.clone())),
            None => None,
        }
    }
}

} // verus!

// What follows states the general laws of delegate construction.

verus! {

/// Whether no two methods of `ms` share a name.
pub open spec fn spec_distinct_method_names(ms: Seq<DelegateMethod>) -> bool {
    forall|i: int, j: int|
        0 <= i < j < ms.len() ==> #[trigger] ms[i].name@ != #[trigger] ms[j].name@
}

proof fn lemma_convert_members_shape(
    reg: RegistryModel,
    dname: String,
    members: Seq<MemberDecl>,
    acc: Seq<DelegateMethod>,
    result: Seq<DelegateMethod>,
)
    requires
        spec_convert_members(reg, dname, members, acc) == Ok::<Seq<DelegateMethod>, ErrorModel>(
            result,
        ),
        spec_distinct_method_names(acc),
    ensures
        result.len() == acc.len() + members.len(),
        forall|i: int| 0 <= i < acc.len() ==> result[i] == acc[i],
        spec_distinct_method_names(result),
        forall|j: int| 0 <= j < members.len() ==> #[trigger] result[acc.len() + j].object_name
            == dname,
    decreases members.len(),
{
    if members.len() == 0 {
    } else {
        let op = members[0]->Operation_0;
        let name = spec_operation_name(op)->Ok_0;
        let q = spec_convert_operation(reg, op)->Ok_0;
        let pushed = acc.push(
            DelegateMethod { name: q.0, object_name: dname, return_type: q.1, throws: q.2 },
        );
        assert(q.0 == name);
        assert(spec_distinct_method_names(pushed)) by {
            assert(forall|i: int|
                0 <= i < acc.len() ==> #[trigger] acc[i].name@ != name@);
        }
        lemma_convert_members_shape(reg, dname, members.drop_first(), pushed, result);
        assert forall|j: int| 0 <= j < members.len() implies #[trigger] result[acc.len()
            + j].object_name == dname by {
            if j == 0 {
                assert(result[acc.len() as int] == pushed[acc.len() as int]);
            } else {
                assert(result[pushed.len() + (j - 1)].object_name == dname);
            }
        }
    }
}

proof fn lemma_find_in_distinct(ms: Seq<DelegateMethod>, i: int)
    requires
        spec_distinct_method_names(ms),
        0 <= i < ms.len(),
    ensures
        spec_find_method(ms, ms[i].name@) == Some(ms[i]),
    decreases ms.len(),
{
    if i == 0 {
    } else {
        assert(ms[0].name@ != ms[i].name@);
        assert(spec_distinct_method_names(ms.drop_first())) by {
            assert(forall|a: int, b: int|
                0 <= a < b < ms.drop_first().len() ==> #[trigger] ms.drop_first()[a].name@
                    != #[trigger] ms.drop_first()[b].name@);
        }
        lemma_find_in_distinct(ms.drop_first(), i - 1);
        assert(ms.drop_first()[i - 1] == ms[i]);
    }
}

/// A delegate declaration with `K` operation members that pass
/// validation yields exactly `K` methods, one per member and in member
/// order; no two of them share a name, every one is owned by the
/// declaring delegate, and each is retrievable by its name.
pub proof fn lemma_delegate_methods_retrievable(
    reg: RegistryModel,
    decl: InterfaceDecl,
    methods: Seq<DelegateMethod>,
)
    requires
        spec_convert_delegate(reg, decl) == Ok::<Seq<DelegateMethod>, ErrorModel>(methods),
    ensures
        methods.len() == decl.members@.len(),
        spec_distinct_method_names(methods),
        forall|i: int| 0 <= i < methods.len() ==> #[trigger] methods[i].object_name == decl.name,
        forall|i: int|
            0 <= i < methods.len() ==> spec_find_method(methods, #[trigger] methods[i].name@)
                == Some(methods[i]),
{
    lemma_convert_members_shape(reg, decl.name, decl.members@, Seq::empty(), methods);
    assert forall|i: int| 0 <= i < methods.len() implies #[trigger] methods[i].object_name
        == decl.name by {
        assert(methods[Seq::<DelegateMethod>::empty().len() + i].object_name == decl.name);
    }
    assert forall|i: int| 0 <= i < methods.len() implies spec_find_method(
        methods,
        #[trigger] methods[i].name@,
    ) == Some(methods[i]) by {
        lemma_find_in_distinct(methods, i);
    }
}

/// An operation that declares one or more formal parameters is refused
/// as an unsupported feature, whatever the parameters' types and
/// whatever else the operation declares.
pub proof fn lemma_arguments_refused(reg: RegistryModel, op: OperationDecl)
    requires
        op.args@.len() >= 1,
    ensures
        spec_convert_operation(reg, op) == Err::<
            (String, ReturnType, Option<String>, Option<String>),
            ErrorModel,
        >(ErrorModel::UnsupportedFeature(Unsupported::Arguments)),
{
}

/// An operation named with the reserved constructor identifier is
/// refused with a reserved-name failure, whatever its return type and
/// attributes declare.
pub proof fn lemma_reserved_name_refused(reg: RegistryModel, op: OperationDecl)
    requires
        op.args@.len() == 0,
        !op.special,
        !op.modifier,
        op.name matches Some(n) && n@ == crate::reserved_constructor_name(),
    ensures
        spec_convert_operation(reg, op) == Err::<
            (String, ReturnType, Option<String>, Option<String>),
            ErrorModel,
        >(ErrorModel::ReservedName(op.name->0@)),
{
    reveal_strlit("new");
}

/// A method whose validated name repeats one already taken in the same
/// delegate is refused as a duplicate definition.
pub proof fn lemma_duplicate_method_refused(
    reg: RegistryModel,
    dname: String,
    members: Seq<MemberDecl>,
    acc: Seq<DelegateMethod>,
)
    requires
        members.len() > 0,
        members[0] matches MemberDecl::Operation(op) && spec_operation_name(op) matches Ok(n)
            && spec_has_method_name(acc, n@),
    ensures
        spec_convert_members(reg, dname, members, acc) == Err::<Seq<DelegateMethod>, ErrorModel>(
            ErrorModel::DuplicateDefinition(
                spec_operation_name(members[0]->Operation_0)->Ok_0@,
            ),
        ),
{
}

/// Every name a successful operation validation yields is well formed:
/// never empty and never the reserved constructor identifier. Since the
/// builders bind method names only from this validation, it is a class
/// invariant of every converted method.
pub proof fn lemma_method_name_well_formed(op: OperationDecl, n: String)
    requires
        spec_operation_name(op) == Ok::<String, ErrorModel>(n),
    ensures
        n@.len() > 0,
        n@ != crate::reserved_constructor_name(),
{
}

proof fn lemma_members_name_driven(
    reg: RegistryModel,
    dn1: String,
    dn2: String,
    members: Seq<MemberDecl>,
    acc1: Seq<DelegateMethod>,
    acc2: Seq<DelegateMethod>,
)
    requires
        spec_convert_members(reg, dn1, members, acc1) is Ok,
        acc1.len() == acc2.len(),
        forall|i: int| 0 <= i < acc1.len() ==> acc1[i].name@ == #[trigger] acc2[i].name@,
    ensures
        spec_convert_members(reg, dn2, members, acc2) is Ok,
    decreases members.len(),
{
    if members.len() == 0 {
    } else {
        let op = members[0]->Operation_0;
        let name = spec_operation_name(op)->Ok_0;
        let q = spec_convert_operation(reg, op)->Ok_0;
        assert(!spec_has_method_name(acc2, name@)) by {
            if spec_has_method_name(acc2, name@) {
                let w = choose|i: int|
                    0 <= i < acc2.len() && #[trigger] acc2[i].name@ == name@;
                assert(acc1[w].name@ == name@);
            }
        }
        let p1 = acc1.push(
            DelegateMethod { name: q.0, object_name: dn1, return_type: q.1, throws: q.2 },
        );
        let p2 = acc2.push(
            DelegateMethod { name: q.0, object_name: dn2, return_type: q.1, throws: q.2 },
        );
        lemma_members_name_driven(reg, dn1, dn2, members.drop_first(), p1, p2);
    }
}

/// Identically named methods across two distinct delegates are
/// independently legal: whether a member list builds does not depend on
/// the declaring delegate's own name, so the same members build under
/// any other delegate name.
pub proof fn lemma_delegates_independent(
    reg: RegistryModel,
    d1: InterfaceDecl,
    d2: InterfaceDecl,
)
    requires
        spec_convert_delegate(reg, d1) is Ok,
        d2.inheritance is None,
        d2.members@ == d1.members@,
    ensures
        spec_convert_delegate(reg, d2) is Ok,
{
    lemma_members_name_driven(
        reg,
        d1.name,
        d2.name,
        d1.members@,
        Seq::empty(),
        Seq::empty(),
    );
}

} // verus!
