//! The resolved semantic model of one compilation unit.
//!
//! A [`ComponentInterface`] owns every definition of the unit: objects,
//! delegates, callback interfaces, enums and errors. A single build
//! pass first registers every declared name, so that a type reference
//! may point at a definition declared later in the source, and only
//! then converts each declaration against the full registry. Names must
//! be unique within each definition category; the first failure aborts
//! the build. After the build, the model is read-only.

use vstd::prelude::*;
use vstd::string::StringExecFns;

use crate::delegate::{convert_delegate, spec_convert_delegate, DelegateMethod, DelegateObject};
use crate::errors::{BuildError, ErrorModel};
use crate::object::{convert_object, spec_convert_object, Method, Object};
use crate::registry::{spec_contains_name, RegistryModel, TypeRegistry};
use crate::syntax::{spec_has_flag, spec_named_value, DefinitionDecl, EnumDecl, InterfaceDecl};

verus! {

/// An enumeration definition: a name and its variants. An enumeration
/// tagged as an error stands in the error category instead.
#[derive(Debug, Clone)]
pub struct EnumDef {
    pub name: String,
    pub variants: Vec<String>,
}

/// A callback interface definition: an interface implemented by foreign
/// code and invoked from across the boundary.
#[derive(Debug, Clone)]
pub struct CallbackInterface {
    pub name: String,
    pub methods: Vec<Method>,
}

/// The validated semantic model of one compilation unit.
#[derive(Debug)]
pub struct ComponentInterface {
    pub namespace: Option<String>,
    pub delegates: Vec<DelegateObject>,
    pub objects: Vec<Object>,
    pub callback_interfaces: Vec<CallbackInterface>,
    pub enums: Vec<EnumDef>,
    pub errors: Vec<EnumDef>,
}

/// The mathematical shape of a [`ComponentInterface`].
#[verifier::ext_equal]
pub struct ComponentModel {
    pub namespace: Option<String>,
    pub delegates: Seq<(String, Seq<DelegateMethod>)>,
    pub objects: Seq<(String, Option<String>, Seq<Method>)>,
    pub callback_interfaces: Seq<(String, Seq<Method>)>,
    pub enums: Seq<(String, Seq<String>)>,
    pub errors: Seq<(String, Seq<String>)>,
}

/// The model a set of built definition lists denotes.
pub open spec fn spec_component_model(
    namespace: Option<String>,
    delegates: Seq<DelegateObject>,
    objects: Seq<Object>,
    callback_interfaces: Seq<CallbackInterface>,
    enums: Seq<EnumDef>,
    errors: Seq<EnumDef>,
) -> ComponentModel {
    ComponentModel {
        namespace,
        delegates: delegates.map_values(|d: DelegateObject| (d.name, d.methods@)),
        objects: objects.map_values(|o: Object| (o.name, o.delegate_name, o.methods@)),
        callback_interfaces: callback_interfaces.map_values(
            |c: CallbackInterface| (c.name, c.methods@),
        ),
        enums: enums.map_values(|e: EnumDef| (e.name, e.variants@)),
        errors: errors.map_values(|e: EnumDef| (e.name, e.variants@)),
    }
}

impl View for ComponentInterface {
    type V = ComponentModel;

    open spec fn view(&self) -> ComponentModel {
        spec_component_model(
            self.namespace,
            self.delegates@,
            self.objects@,
            self.callback_interfaces@,
            self.enums@,
            self.errors@,
        )
    }
}

/// The model of a component with nothing in it yet.
pub open spec fn spec_empty_component() -> ComponentModel {
    ComponentModel {
        namespace: None,
        delegates: Seq::empty(),
        objects: Seq::empty(),
        callback_interfaces: Seq::empty(),
        enums: Seq::empty(),
        errors: Seq::empty(),
    }
}

/// The registry of a unit with nothing registered yet.
pub open spec fn spec_empty_registry() -> RegistryModel {
    RegistryModel {
        delegates: Seq::empty(),
        objects: Seq::empty(),
        callback_interfaces: Seq::empty(),
        enums: Seq::empty(),
        errors: Seq::empty(),
        records: Seq::empty(),
    }
}

/// Whether an interface declaration is tagged as a delegate.
pub open spec fn spec_is_delegate_decl(d: InterfaceDecl) -> bool {
    spec_has_flag(d.attributes@, "Delegate"@)
}

/// Whether an enum declaration is tagged as an error.
pub open spec fn spec_is_error_decl(d: EnumDecl) -> bool {
    spec_has_flag(d.attributes@, "Error"@)
}

/// The registration pass: every declared name is entered into its
/// category, in source order, before anything is resolved; a name that
/// repeats within its category is the first failure.
pub open spec fn spec_register(defs: Seq<DefinitionDecl>, acc: RegistryModel) -> Result<
    RegistryModel,
    ErrorModel,
>
    decreases defs.len(),
{
    if defs.len() == 0 {
        Ok(acc)
    } else {
        let rest = defs.drop_first();
        match defs[0] {
            DefinitionDecl::Namespace(_) => spec_register(rest, acc),
            DefinitionDecl::Interface(d) => if spec_is_delegate_decl(d) {
                if spec_contains_name(acc.delegates, d.name@) {
                    Err(ErrorModel::DuplicateDefinition(d.name@))
                } else {
                    spec_register(rest, RegistryModel { delegates: acc.delegates.push(d.name), ..acc })
                }
            } else {
                if spec_contains_name(acc.objects, d.name@) {
                    Err(ErrorModel::DuplicateDefinition(d.name@))
                } else {
                    spec_register(rest, RegistryModel { objects: acc.objects.push(d.name), ..acc })
                }
            },
            DefinitionDecl::CallbackInterface(d) => if spec_contains_name(
                acc.callback_interfaces,
                d.name@,
            ) {
                Err(ErrorModel::DuplicateDefinition(d.name@))
            } else {
                spec_register(
                    rest,
                    RegistryModel {
                        callback_interfaces: acc.callback_interfaces.push(d.name),
                        ..acc
                    },
                )
            },
            DefinitionDecl::Enum(d) => if spec_is_error_decl(d) {
                if spec_contains_name(acc.errors, d.name@) {
                    Err(ErrorModel::DuplicateDefinition(d.name@))
                } else {
                    spec_register(rest, RegistryModel { errors: acc.errors.push(d.name), ..acc })
                }
            } else {
                if spec_contains_name(acc.enums, d.name@) {
                    Err(ErrorModel::DuplicateDefinition(d.name@))
                } else {
                    spec_register(rest, RegistryModel { enums: acc.enums.push(d.name), ..acc })
                }
            },
        }
    }
}

/// The conversion pass: each declaration is converted against the full
/// registry and appended to its category, in source order; the first
/// namespace declaration names the unit.
pub open spec fn spec_build_defs(
    reg: RegistryModel,
    defs: Seq<DefinitionDecl>,
    acc: ComponentModel,
) -> Result<ComponentModel, ErrorModel>
    decreases defs.len(),
{
    if defs.len() == 0 {
        Ok(acc)
    } else {
        let rest = defs.drop_first();
        match defs[0] {
            DefinitionDecl::Namespace(n) => spec_build_defs(
                reg,
                rest,
                if acc.namespace is None {
                    ComponentModel { namespace: Some(n), ..acc }
                } else {
                    acc
                },
            ),
            DefinitionDecl::Interface(d) => if spec_is_delegate_decl(d) {
                match spec_convert_delegate(reg, d) {
                    Err(e) => Err(e),
                    Ok(ms) => spec_build_defs(
                        reg,
                        rest,
                        ComponentModel { delegates: acc.delegates.push((d.name, ms)), ..acc },
                    ),
                }
            } else {
                match spec_convert_object(reg, d) {
                    Err(e) => Err(e),
                    Ok(ms) => spec_build_defs(
                        reg,
                        rest,
                        ComponentModel {
                            objects: acc.objects.push(
                                (d.name, spec_named_value(d.attributes@, "Delegate"@), ms),
                            ),
                            ..acc
                        },
                    ),
                }
            },
            DefinitionDecl::CallbackInterface(d) => match spec_convert_object(reg, d) {
                Err(e) => Err(e),
                Ok(ms) => spec_build_defs(
                    reg,
                    rest,
                    ComponentModel {
                        callback_interfaces: acc.callback_interfaces.push((d.name, ms)),
                        ..acc
                    },
                ),
            },
            DefinitionDecl::Enum(d) => if spec_is_error_decl(d) {
                spec_build_defs(
                    reg,
                    rest,
                    ComponentModel { errors: acc.errors.push((d.name, d.variants@)), ..acc },
                )
            } else {
                spec_build_defs(
                    reg,
                    rest,
                    ComponentModel { enums: acc.enums.push((d.name, d.variants@)), ..acc },
                )
            },
        }
    }
}

/// The whole build: registration, then conversion against the full
/// registry.
pub open spec fn spec_build(defs: Seq<DefinitionDecl>) -> Result<ComponentModel, ErrorModel> {
    match spec_register(defs, spec_empty_registry()) {
        Err(e) => Err(e),
        Ok(reg) => spec_build_defs(reg, defs, spec_empty_component()),
    }
}

/// A copy of a string list whose entries equal the source's.
fn clone_strings(src: &Vec<String>) -> (r: Vec<String>)
    ensures
        r@ == src@,
{
    let mut out: Vec<String> = Vec::new();
    let mut i: usize = 0;
    while i < src.len()
        invariant
            0 <= i <= src@.len(),
            out@.len() == i,
            forall|j: int| 0 <= j < i ==> out@[j] == src@[j],
        decreases src@.len() - i,
    {
        out.push(src[i].clone());
        i = i + 1;
    }
    proof {
        assert(out@ =~= src@);
    }
    out
}

/// The first delegate of `ds` named `nm`, if any.
pub open spec fn spec_find_delegate(ds: Seq<DelegateObject>, nm: Seq<char>) -> Option<
    DelegateObject,
>
    decreases ds.len(),
{
    if ds.len() == 0 {
        None
    } else if ds[0].name@ == nm {
        Some(ds[0])
    } else {
        spec_find_delegate(ds.drop_first(), nm)
    }
}

/// The first object of `os` named `nm`, if any.
pub open spec fn spec_find_object(os: Seq<Object>, nm: Seq<char>) -> Option<Object>
    decreases os.len(),
{
    if os.len() == 0 {
        None
    } else if os[0].name@ == nm {
        Some(os[0])
    } else {
        spec_find_object(os.drop_first(), nm)
    }
}

impl ComponentInterface {
    /// The whole build of one compilation unit: every declared name is
    /// registered first, then each declaration is converted against the
    /// full registry, so that a reference may point forward in the
    /// source. The first failure aborts the build.
    pub fn from_declarations(defs: &Vec<DefinitionDecl>) -> (r: Result<
        ComponentInterface,
        BuildError,
    >)
        ensures
            match r {
                Ok(ci) => spec_build(defs@) == Ok::<ComponentModel, ErrorModel>(ci@),
                Err(e) => spec_build(defs@) matches Err(em) && em == e@,
            },
    {
        let delegate_flag = String::from_str("Delegate");
        let error_flag = String::from_str("Error");

        // Registration pass.
        let mut reg = TypeRegistry::new();
        let mut i: usize = 0;
        proof {
            assert(defs@.skip(0) =~= defs@);
            assert(reg@ =~= spec_empty_registry());
        }
        while i < defs.len()
            invariant
                0 <= i <= defs@.len(),
                spec_register(defs@, spec_empty_registry()) == spec_register(
                    defs@.skip(i as int),
                    reg@,
                ),
            decreases defs@.len() - i,
        {
            proof {
                assert(defs@.skip(i as int)[0] == defs@[i as int]);
                assert(defs@.skip(i as int).drop_first() =~= defs@.skip(i as int + 1));
            }
            match &defs[i] {
                DefinitionDecl::Namespace(_) => {},
                DefinitionDecl::Interface(d) => {
                    if crate::syntax::has_flag(&d.attributes, "Delegate") {
                        if crate::registry::contains_name(&reg.delegates, &d.name) {
                            return Err(BuildError::DuplicateDefinition(d.name.clone()));
                        }
                        reg.delegates.push(d.name.clone());
                    } else {
                        if crate::registry::contains_name(&reg.objects, &d.name) {
                            return Err(BuildError::DuplicateDefinition(d.name.clone()));
                        }
                        reg.objects.push(d.name.clone());
                    }
                },
                DefinitionDecl::CallbackInterface(d) => {
                    if crate::registry::contains_name(&reg.callback_interfaces, &d.name) {
                        return Err(BuildError::DuplicateDefinition(d.name.clone()));
                    }
                    reg.callback_interfaces.push(d.name.clone());
                },
                DefinitionDecl::Enum(d) => {
                    if crate::syntax::has_flag(&d.attributes, "Error") {
                        if crate::registry::contains_name(&reg.errors, &d.name) {
                            return Err(BuildError::DuplicateDefinition(d.name.clone()));
                        }
                        reg.errors.push(d.name.clone());
                    } else {
                        if crate::registry::contains_name(&reg.enums, &d.name) {
                            return Err(BuildError::DuplicateDefinition(d.name.clone()));
                        }
                        reg.enums.push(d.name.clone());
                    }
                },
            }
            i = i + 1;
        }
        proof {
            assert(defs@.skip(i as int) =~= Seq::<DefinitionDecl>::empty());
        }

        // Conversion pass, against the full registry.
        let mut namespace: Option<String> = None;
        let mut delegates: Vec<DelegateObject> = Vec::new();
        let mut objects: Vec<Object> = Vec::new();
        let mut callback_interfaces: Vec<CallbackInterface> = Vec::new();
        let mut enums: Vec<EnumDef> = Vec::new();
        let mut errors: Vec<EnumDef> = Vec::new();
        let mut k: usize = 0;
        proof {
            assert(spec_component_model(
                None,
                delegates@,
                objects@,
                callback_interfaces@,
                enums@,
                errors@,
            ) =~= spec_empty_component());
        }
        while k < defs.len()
            invariant
                0 <= k <= defs@.len(),
                spec_register(defs@, spec_empty_registry()) == Ok::<RegistryModel, ErrorModel>(
                    reg@,
                ),
                spec_build_defs(reg@, defs@, spec_empty_component()) == spec_build_defs(
                    reg@,
                    defs@.skip(k as int),
                    spec_component_model(
                        namespace,
                        delegates@,
                        objects@,
                        callback_interfaces@,
                        enums@,
                        errors@,
                    ),
                ),
            decreases defs@.len() - k,
        {
            proof {
                assert(defs@.skip(k as int)[0] == defs@[k as int]);
                assert(defs@.skip(k as int).drop_first() =~= defs@.skip(k as int + 1));
            }
            let ghost before = spec_component_model(
                namespace,
                delegates@,
                objects@,
                callback_interfaces@,
                enums@,
                errors@,
            );
            match &defs[k] {
                DefinitionDecl::Namespace(n) => {
                    if namespace.is_none() {
                        namespace = Some(n.clone());
                    }
                    proof {
                        assert(spec_component_model(
                            namespace,
                            delegates@,
                            objects@,
                            callback_interfaces@,
                            enums@,
                            errors@,
                        ) =~= (if before.namespace is None {
                            ComponentModel { namespace: Some(*n), ..before }
                        } else {
                            before
                        }));
                    }
                },
                DefinitionDecl::Interface(d) => {
                    if crate::syntax::has_flag(&d.attributes, "Delegate") {
                        let del = match convert_delegate(&reg, d) {
                            Ok(del) => del,
                            Err(e) => {
                                return Err(e);
                            },
                        };
                        let ghost entry = (del.name, del.methods@);
                        delegates.push(del);
                        proof {
                            assert(delegates@.map_values(
                                |x: DelegateObject| (x.name, x.methods@),
                            ) =~= before.delegates.push(entry));
                            assert(spec_component_model(
                                namespace,
                                delegates@,
                                objects@,
                                callback_interfaces@,
                                enums@,
                                errors@,
                            ) =~= ComponentModel {
                                delegates: before.delegates.push(entry),
                                ..before
                            });
                        }
                    } else {
                        let delegate_name: Option<String> = match crate::syntax::named_value(
                            &d.attributes,
                            "Delegate",
                        ) {
                            Some(v) => Some(v.clone()),
                            None => None,
                        };
                        let obj = match convert_object(&reg, d, delegate_name) {
                            Ok(o) => o,
                            Err(e) => {
                                return Err(e);
                            },
                        };
                        let ghost entry = (obj.name, obj.delegate_name, obj.methods@);
                        objects.push(obj);
                        proof {
                            assert(objects@.map_values(
                                |x: Object| (x.name, x.delegate_name, x.methods@),
                            ) =~= before.objects.push(entry));
                            assert(spec_component_model(
                                namespace,
                                delegates@,
                                objects@,
                                callback_interfaces@,
                                enums@,
                                errors@,
                            ) =~= ComponentModel { objects: before.objects.push(entry), ..before });
                        }
                    }
                },
                DefinitionDecl::CallbackInterface(d) => {
                    let obj = match convert_object(&reg, d, None) {
                        Ok(o) => o,
                        Err(e) => {
                            return Err(e);
                        },
                    };
                    let cb = CallbackInterface { name: obj.name, methods: obj.methods };
                    let ghost entry = (cb.name, cb.methods@);
                    callback_interfaces.push(cb);
                    proof {
                        assert(callback_interfaces@.map_values(
                            |x: CallbackInterface| (x.name, x.methods@),
                        ) =~= before.callback_interfaces.push(entry));
                        assert(spec_component_model(
                            namespace,
                            delegates@,
                            objects@,
                            callback_interfaces@,
                            enums@,
                            errors@,
                        ) =~= ComponentModel {
                            callback_interfaces: before.callback_interfaces.push(entry),
                            ..before
                        });
                    }
                },
                DefinitionDecl::Enum(d) => {
                    let def = EnumDef { name: d.name.clone(), variants: clone_strings(&d.variants) };
                    let ghost entry = (def.name, def.variants@);
                    if crate::syntax::has_flag(&d.attributes, "Error") {
                        errors.push(def);
                        proof {
                            assert(errors@.map_values(|x: EnumDef| (x.name, x.variants@))
                                =~= before.errors.push(entry));
                            assert(spec_component_model(
                                namespace,
                                delegates@,
                                objects@,
                                callback_interfaces@,
                                enums@,
                                errors@,
                            ) =~= ComponentModel { errors: before.errors.push(entry), ..before });
                        }
                    } else {
                        enums.push(def);
                        proof {
                            assert(enums@.map_values(|x: EnumDef| (x.name, x.variants@))
                                =~= before.enums.push(entry));
                            assert(spec_component_model(
                                namespace,
                                delegates@,
                                objects@,
                                callback_interfaces@,
                                enums@,
                                errors@,
                            ) =~= ComponentModel { enums: before.enums.push(entry), ..before });
                        }
                    }
                },
            }
            k = k + 1;
        }
        proof {
            assert(defs@.skip(k as int) =~= Seq::<DefinitionDecl>::empty());
        }
        Ok(
            ComponentInterface {
                namespace,
                delegates,
                objects,
                callback_interfaces,
                enums,
                errors,
            },
        )
    }

    /// The first delegate definition named `nm`, if any.
    pub fn get_delegate_definition(&self, nm: &str) -> (r: Option<&DelegateObject>)
        ensures
            match r {
                Some(d) => spec_find_delegate(self.delegates@, nm@) == Some(*d),
                None => spec_find_delegate(self.delegates@, nm@) is None,
            },
    {
        let wanted = String::from_str(nm);
        let mut i: usize = 0;
        proof {
            assert(self.delegates@.skip(0) =~= self.delegates@);
        }
        while i < self.delegates.len()
            invariant
                0 <= i <= self.delegates@.len(),
                wanted@ == nm@,
                spec_find_delegate(self.delegates@, nm@) == spec_find_delegate(
                    self.delegates@.skip(i as int),
                    nm@,
                ),
            decreases self.delegates@.len() - i,
        {
            proof {
                assert(self.delegates@.skip(i as int)[0] == self.delegates@[i as int]);
                assert(self.delegates@.skip(i as int).drop_first() =~= self.delegates@.skip(
                    i as int + 1,
                ));
            }
            if self.delegates[i].name.eq(&wanted) {
                return Some(&self.delegates[i]);
            }
            i = i + 1;
        }
        None
    }

    /// The first object definition named `nm`, if any.
    pub fn get_object_definition(&self, nm: &str) -> (r: Option<&Object>)
        ensures
            match r {
                Some(o) => spec_find_object(self.objects@, nm@) == Some(*o),
                None => spec_find_object(self.objects@, nm@) is None,
            },
    {
        let wanted = String::from_str(nm);
        let mut i: usize = 0;
        proof {
            assert(self.objects@.skip(0) =~= self.objects@);
        }
        while i < self.objects.len()
            invariant
                0 <= i <= self.objects@.len(),
                wanted@ == nm@,
                spec_find_object(self.objects@, nm@) == spec_find_object(
                    self.objects@.skip(i as int),
                    nm@,
                ),
            decreases self.objects@.len() - i,
        {
            proof {
                assert(self.objects@.skip(i as int)[0] == self.objects@[i as int]);
                assert(self.objects@.skip(i as int).drop_first() =~= self.objects@.skip(
                    i as int + 1,
                ));
            }
            if self.objects[i].name.eq(&wanted) {
                return Some(&self.objects[i]);
            }
            i = i + 1;
        }
        None
    }

    /// The unit's delegate definitions, in source order.
    pub fn iter_delegate_definitions(&self) -> (r: Vec<&DelegateObject>)
        ensures
            r@.len() == self.delegates@.len(),
            forall|i: int| 0 <= i < r@.len() ==> *r@[i] == self.delegates@[i],
    {
        let mut out: Vec<&DelegateObject> = Vec::new();
        let mut i: usize = 0;
        while i < self.delegates.len()
            invariant
                0 <= i <= self.delegates@.len(),
                out@.len() == i,
                forall|j: int| 0 <= j < i ==> *out@[j] == self.delegates@[j],
            decreases self.delegates@.len() - i,
        {
            out.push(&self.delegates[i]);
            i = i + 1;
        }
        out
    }

    /// The unit's callback interface definitions, in source order.
    pub fn iter_callback_interface_definitions(&self) -> (r: Vec<&CallbackInterface>)
        ensures
            r@.len() == self.callback_interfaces@.len(),
            forall|i: int| 0 <= i < r@.len() ==> *r@[i] == self.callback_interfaces@[i],
    {
        let mut out: Vec<&CallbackInterface> = Vec::new();
        let mut i: usize = 0;
        while i < self.callback_interfaces.len()
            invariant
                0 <= i <= self.callback_interfaces@.len(),
                out@.len() == i,
                forall|j: int| 0 <= j < i ==> *out@[j] == self.callback_interfaces@[j],
            decreases self.callback_interfaces@.len() - i,
        {
            out.push(&self.callback_interfaces[i]);
            i = i + 1;
        }
        out
    }
}

impl CallbackInterface {
    /// The callback interface's name.
    pub fn name(&self) -> (r: &str)
        ensures
            r@ == self.name@,
    {
        self.name.as_str()
    }
}


/// Whether no two strings of `names` read the same.
pub open spec fn spec_distinct_names(names: Seq<String>) -> bool {
    forall|i: int, j: int|
        0 <= i < j < names.len() ==> #[trigger] names[i]@ != #[trigger] names[j]@
}

/// The names of a built category, in source order.
pub open spec fn spec_delegate_names(s: Seq<(String, Seq<DelegateMethod>)>) -> Seq<String> {
    s.map_values(|p: (String, Seq<DelegateMethod>)| p.0)
}

pub open spec fn spec_object_names(s: Seq<(String, Option<String>, Seq<Method>)>) -> Seq<String> {
    s.map_values(|p: (String, Option<String>, Seq<Method>)| p.0)
}

pub open spec fn spec_callback_names(s: Seq<(String, Seq<Method>)>) -> Seq<String> {
    s.map_values(|p: (String, Seq<Method>)| p.0)
}

pub open spec fn spec_enum_names(s: Seq<(String, Seq<String>)>) -> Seq<String> {
    s.map_values(|p: (String, Seq<String>)| p.0)
}

proof fn lemma_distinct_push(names: Seq<String>, n: String)
    requires
        spec_distinct_names(names),
        !spec_contains_name(names, n@),
    ensures
        spec_distinct_names(names.push(n)),
{
    assert forall|i: int, j: int|
        0 <= i < j < names.push(n).len() implies #[trigger] names.push(n)[i]@
        != #[trigger] names.push(n)[j]@ by {
        if j == names.len() {
            assert(names[i]@ != n@);
        }
    }
}

proof fn lemma_build_names_unique(
    reg: RegistryModel,
    defs: Seq<DefinitionDecl>,
    acc_r: RegistryModel,
    acc_c: ComponentModel,
    out_r: RegistryModel,
    out_c: ComponentModel,
)
    requires
        spec_register(defs, acc_r) == Ok::<RegistryModel, ErrorModel>(out_r),
        spec_build_defs(reg, defs, acc_c) == Ok::<ComponentModel, ErrorModel>(out_c),
        spec_delegate_names(acc_c.delegates) == acc_r.delegates,
        spec_object_names(acc_c.objects) == acc_r.objects,
        spec_callback_names(acc_c.callback_interfaces) == acc_r.callback_interfaces,
        spec_enum_names(acc_c.enums) == acc_r.enums,
        spec_enum_names(acc_c.errors) == acc_r.errors,
        spec_distinct_names(acc_r.delegates),
        spec_distinct_names(acc_r.objects),
        spec_distinct_names(acc_r.callback_interfaces),
        spec_distinct_names(acc_r.enums),
        spec_distinct_names(acc_r.errors),
    ensures
        spec_distinct_names(spec_delegate_names(out_c.delegates)),
        spec_distinct_names(spec_object_names(out_c.objects)),
        spec_distinct_names(spec_callback_names(out_c.callback_interfaces)),
        spec_distinct_names(spec_enum_names(out_c.enums)),
        spec_distinct_names(spec_enum_names(out_c.errors)),
    decreases defs.len(),
{
    if defs.len() == 0 {
    } else {
        let rest = defs.drop_first();
        match defs[0] {
            DefinitionDecl::Namespace(n) => {
                let acc_c2 = if acc_c.namespace is None {
                    ComponentModel { namespace: Some(n), ..acc_c }
                } else {
                    acc_c
                };
                lemma_build_names_unique(reg, rest, acc_r, acc_c2, out_r, out_c);
            },
            DefinitionDecl::Interface(d) => {
                if spec_is_delegate_decl(d) {
                    let ms = spec_convert_delegate(reg, d)->Ok_0;
                    let acc_r2 = RegistryModel {
                        delegates: acc_r.delegates.push(d.name),
                        ..acc_r
                    };
                    let acc_c2 = ComponentModel {
                        delegates: acc_c.delegates.push((d.name, ms)),
                        ..acc_c
                    };
                    lemma_distinct_push(acc_r.delegates, d.name);
                    assert(spec_delegate_names(acc_c2.delegates) =~= acc_r2.delegates);
                    lemma_build_names_unique(reg, rest, acc_r2, acc_c2, out_r, out_c);
                } else {
                    let ms = spec_convert_object(reg, d)->Ok_0;
                    let dn = spec_named_value(d.attributes@, "Delegate"@);
                    let acc_r2 = RegistryModel { objects: acc_r.objects.push(d.name), ..acc_r };
                    let acc_c2 = ComponentModel {
                        objects: acc_c.objects.push((d.name, dn, ms)),
                        ..acc_c
                    };
                    lemma_distinct_push(acc_r.objects, d.name);
                    assert(spec_object_names(acc_c2.objects) =~= acc_r2.objects);
                    lemma_build_names_unique(reg, rest, acc_r2, acc_c2, out_r, out_c);
                }
            },
            DefinitionDecl::CallbackInterface(d) => {
                let ms = spec_convert_object(reg, d)->Ok_0;
                let acc_r2 = RegistryModel {
                    callback_interfaces: acc_r.callback_interfaces.push(d.name),
                    ..acc_r
                };
                let acc_c2 = ComponentModel {
                    callback_interfaces: acc_c.callback_interfaces.push((d.name, ms)),
                    ..acc_c
                };
                lemma_distinct_push(acc_r.callback_interfaces, d.name);
                assert(spec_callback_names(acc_c2.callback_interfaces)
                    =~= acc_r2.callback_interfaces);
                lemma_build_names_unique(reg, rest, acc_r2, acc_c2, out_r, out_c);
            },
            DefinitionDecl::Enum(d) => {
                if spec_is_error_decl(d) {
                    let acc_r2 = RegistryModel { errors: acc_r.errors.push(d.name), ..acc_r };
                    let acc_c2 = ComponentModel {
                        errors: acc_c.errors.push((d.name, d.variants@)),
                        ..acc_c
                    };
                    lemma_distinct_push(acc_r.errors, d.name);
                    assert(spec_enum_names(acc_c2.errors) =~= acc_r2.errors);
                    lemma_build_names_unique(reg, rest, acc_r2, acc_c2, out_r, out_c);
                } else {
                    let acc_r2 = RegistryModel { enums: acc_r.enums.push(d.name), ..acc_r };
                    let acc_c2 = ComponentModel {
                        enums: acc_c.enums.push((d.name, d.variants@)),
                        ..acc_c
                    };
                    lemma_distinct_push(acc_r.enums, d.name);
                    assert(spec_enum_names(acc_c2.enums) =~= acc_r2.enums);
                    lemma_build_names_unique(reg, rest, acc_r2, acc_c2, out_r, out_c);
                }
            },
        }
    }
}

/// Names are unique within each definition category of a built
/// component: the registration pass refuses a repeated name before the
/// conversion pass ever runs, so no built model carries two delegates,
/// two objects, two callback interfaces, two enums or two errors under
/// one name.
pub proof fn lemma_component_names_unique(defs: Seq<DefinitionDecl>, cm: ComponentModel)
    requires
        spec_build(defs) == Ok::<ComponentModel, ErrorModel>(cm),
    ensures
        spec_distinct_names(spec_delegate_names(cm.delegates)),
        spec_distinct_names(spec_object_names(cm.objects)),
        spec_distinct_names(spec_callback_names(cm.callback_interfaces)),
        spec_distinct_names(spec_enum_names(cm.enums)),
        spec_distinct_names(spec_enum_names(cm.errors)),
{
    let reg = spec_register(defs, spec_empty_registry())->Ok_0;
    assert(spec_delegate_names(spec_empty_component().delegates) =~= spec_empty_registry(
    ).delegates);
    assert(spec_object_names(spec_empty_component().objects) =~= spec_empty_registry().objects);
    assert(spec_callback_names(spec_empty_component().callback_interfaces)
        =~= spec_empty_registry().callback_interfaces);
    assert(spec_enum_names(spec_empty_component().enums) =~= spec_empty_registry().enums);
    assert(spec_enum_names(spec_empty_component().errors) =~= spec_empty_registry().errors);
    lemma_build_names_unique(
        reg,
        defs,
        spec_empty_registry(),
        spec_empty_component(),
        reg,
        cm,
    );
}

} // verus!
