use uniffi_bindgen::component::ComponentInterface;
use uniffi_bindgen::object::{Method, Object};
use uniffi_bindgen::syntax::{
    AttrDecl, DefinitionDecl, EnumDecl, InterfaceDecl, MemberDecl, OperationDecl, ReturnTypeExpr,
    TypeExpr,
};
use uniffi_bindgen::types::{ReturnType, Type};

fn op(name: &str, ret: ReturnTypeExpr, attrs: Vec<AttrDecl>) -> MemberDecl {
    MemberDecl::Operation(OperationDecl {
        name: Some(name.to_string()),
        special: false,
        modifier: false,
        args: Vec::new(),
        return_type: ret,
        attributes: attrs,
    })
}

fn iface(name: &str, attrs: Vec<AttrDecl>, members: Vec<MemberDecl>) -> DefinitionDecl {
    DefinitionDecl::Interface(InterfaceDecl {
        name: name.to_string(),
        inheritance: None,
        attributes: attrs,
        members,
    })
}

fn delegate_flag() -> Vec<AttrDecl> {
    vec![AttrDecl::Flag("Delegate".to_string())]
}

fn namespace(name: &str) -> DefinitionDecl {
    DefinitionDecl::Namespace(name.to_string())
}

fn error_enum(name: &str, variants: &[&str]) -> DefinitionDecl {
    DefinitionDecl::Enum(EnumDecl {
        name: name.to_string(),
        attributes: vec![AttrDecl::Flag("Error".to_string())],
        variants: variants.iter().map(|v| v.to_string()).collect(),
    })
}

#[test]
fn test_delegate_attribute_makes_a_delegate_object() {
    // namespace test{};
    // [Delegate]
    // interface Testing {
    //     sequence<u32> code_points_of_name();
    // };
    let defs = vec![
        namespace("test"),
        iface(
            "Testing",
            delegate_flag(),
            vec![op(
                "code_points_of_name",
                ReturnTypeExpr::Expr(TypeExpr::Sequence(Box::new(TypeExpr::U32))),
                vec![],
            )],
        ),
    ];
    let ci = ComponentInterface::from_declarations(&defs).unwrap();
    assert_eq!(ci.iter_delegate_definitions().len(), 1);
    ci.get_delegate_definition("Testing").unwrap();
}

#[test]
fn test_the_name_new_is_reserved_for_constructors() {
    // namespace test{};
    // [Delegate]
    // interface Testing {
    //     void new();
    // };
    let defs = vec![
        namespace("test"),
        iface(
            "Testing",
            delegate_flag(),
            vec![op("new", ReturnTypeExpr::Void, vec![])],
        ),
    ];
    let err = ComponentInterface::from_declarations(&defs).unwrap_err();
    assert_eq!(
        err.message(),
        "the method name \"new\" is reserved for the default constructor"
    );
}

#[test]
fn test_methods_have_zero_args() {
    // namespace test{};
    // [Delegate]
    // interface Testing {
    //     void method(u32 arg);
    // };
    let defs = vec![
        namespace("test"),
        iface(
            "Testing",
            delegate_flag(),
            vec![MemberDecl::Operation(OperationDecl {
                name: Some("method".to_string()),
                special: false,
                modifier: false,
                args: vec![uniffi_bindgen::syntax::ArgDecl {
                    name: "arg".to_string(),
                    type_expr: TypeExpr::U32,
                }],
                return_type: ReturnTypeExpr::Void,
                attributes: vec![],
            })],
        ),
    ];
    let err = ComponentInterface::from_declarations(&defs).unwrap_err();
    assert_eq!(err.message(), "custom method arguments are not supported");
}

#[test]
fn test_delegate_methods_can_throw() {
    // namespace test{};
    // [Delegate]
    // interface Testing {
    //     [Throws=Error]
    //     void method();
    // };
    // [Error]
    // enum Error { "LOLWUT" };
    let defs = vec![
        namespace("test"),
        iface(
            "Testing",
            delegate_flag(),
            vec![op(
                "method",
                ReturnTypeExpr::Void,
                vec![AttrDecl::NamedValue(
                    "Throws".to_string(),
                    "Error".to_string(),
                )],
            )],
        ),
        error_enum("Error", &["LOLWUT"]),
    ];
    let ci = ComponentInterface::from_declarations(&defs).unwrap();
    let dobj = ci.get_delegate_definition("Testing").unwrap();
    let m = dobj.find_method("method").unwrap();

    assert_eq!(m.throws_type(), Some(Type::Error("Error".into())));
}

#[test]
fn test_delegate_methods_can_override_return_types_and_throw_types() {
    // namespace test{};
    // [Delegate]
    // interface TheDelegate {
    //     [Throws=Error] void it_throws();
    //     void it_swallows();
    //     i32 it_counts();
    //     any it_passes_through();
    // };
    // [Delegate=TheDelegate]
    // interface Testing {
    //     [Throws=Error, CallWith=it_swallows] void thrower();
    //     [CallWith=it_throws] void silent();
    //     [CallWith=it_counts] void counted();
    //     [CallWith=it_passes_through] sequence<i32?> exotic();
    // };
    // [Error]
    // enum Error { "LOLWUT" };
    let defs = vec![
        namespace("test"),
        iface(
            "TheDelegate",
            delegate_flag(),
            vec![
                op(
                    "it_throws",
                    ReturnTypeExpr::Void,
                    vec![AttrDecl::NamedValue(
                        "Throws".to_string(),
                        "Error".to_string(),
                    )],
                ),
                op("it_swallows", ReturnTypeExpr::Void, vec![]),
                op("it_counts", ReturnTypeExpr::Expr(TypeExpr::I32), vec![]),
                op("it_passes_through", ReturnTypeExpr::Expr(TypeExpr::Any), vec![]),
            ],
        ),
        iface(
            "Testing",
            vec![AttrDecl::NamedValue(
                "Delegate".to_string(),
                "TheDelegate".to_string(),
            )],
            vec![
                op(
                    "thrower",
                    ReturnTypeExpr::Void,
                    vec![
                        AttrDecl::NamedValue("Throws".to_string(), "Error".to_string()),
                        AttrDecl::NamedValue("CallWith".to_string(), "it_swallows".to_string()),
                    ],
                ),
                op(
                    "silent",
                    ReturnTypeExpr::Void,
                    vec![AttrDecl::NamedValue(
                        "CallWith".to_string(),
                        "it_throws".to_string(),
                    )],
                ),
                op(
                    "counted",
                    ReturnTypeExpr::Void,
                    vec![AttrDecl::NamedValue(
                        "CallWith".to_string(),
                        "it_counts".to_string(),
                    )],
                ),
                op(
                    "exotic",
                    ReturnTypeExpr::Expr(TypeExpr::Sequence(Box::new(TypeExpr::Optional(
                        Box::new(TypeExpr::I32),
                    )))),
                    vec![AttrDecl::NamedValue(
                        "CallWith".to_string(),
                        "it_passes_through".to_string(),
                    )],
                ),
            ],
        ),
        error_enum("Error", &["LOLWUT"]),
    ];
    let ci = ComponentInterface::from_declarations(&defs).unwrap();
    let dobj = ci.get_delegate_definition("TheDelegate");
    let obj = ci.get_object_definition("Testing").unwrap();

    fn find_method<'a>(nm: &str, obj: &'a Object) -> &'a Method {
        obj.methods.iter().find(|m| m.name() == nm).unwrap()
    }

    let m = find_method("thrower", obj);
    // thrower delegates through it_swallows, which returns void and throws nothing
    assert_eq!(m.delegated_return_type(&dobj), None);
    assert_eq!(m.delegated_throws_type(&dobj), None);

    let m = find_method("silent", obj);
    // silent delegates through it_throws, which returns void and throws Error
    assert_eq!(m.delegated_return_type(&dobj), None);
    assert_eq!(
        m.delegated_throws_type(&dobj),
        Some(Type::Error("Error".into()))
    );

    let m = find_method("counted", obj);
    // counted delegates through it_counts, which returns i32 and throws nothing
    assert_eq!(m.delegated_return_type(&dobj), Some(Type::Int32));
    assert_eq!(m.delegated_throws_type(&dobj), None);

    let m = find_method("exotic", obj);
    // exotic delegates through it_passes_through, which passes the
    // declared Sequence<Option<i32>> through and throws nothing
    assert_eq!(
        m.delegated_return_type(&dobj),
        Some(Type::Sequence(Box::new(Type::Optional(Box::new(
            Type::Int32
        )))))
    );
    assert_eq!(m.delegated_throws_type(&dobj), None);
}

#[test]
fn delegate_with_three_methods_each_retrievable() {
    let defs = vec![
        namespace("test"),
        iface(
            "Trio",
            delegate_flag(),
            vec![
                op("alpha", ReturnTypeExpr::Void, vec![]),
                op("beta", ReturnTypeExpr::Expr(TypeExpr::U32), vec![]),
                op("gamma", ReturnTypeExpr::Expr(TypeExpr::Bool), vec![]),
            ],
        ),
    ];
    let ci = ComponentInterface::from_declarations(&defs).unwrap();
    let d = ci.get_delegate_definition("Trio").unwrap();
    assert_eq!(d.methods().len(), 3);
    assert_eq!(d.find_method("alpha").unwrap().name(), "alpha");
    assert_eq!(d.find_method("beta").unwrap().name(), "beta");
    assert_eq!(d.find_method("gamma").unwrap().name(), "gamma");
    assert!(d.find_method("delta").is_none());
    assert_eq!(d.name(), "Trio");
    assert_eq!(d.type_(), Type::DelegateObject("Trio".into()));
    assert_eq!(d.methods()[1].return_type(), &ReturnType::Type(Type::UInt32));
    assert_eq!(d.methods()[0].object_name, "Trio");
}

#[test]
fn duplicate_method_names_fail_within_one_delegate() {
    let defs = vec![
        namespace("test"),
        iface(
            "Dup",
            delegate_flag(),
            vec![
                op("f", ReturnTypeExpr::Void, vec![]),
                op("f", ReturnTypeExpr::Expr(TypeExpr::U32), vec![]),
            ],
        ),
    ];
    let err = ComponentInterface::from_declarations(&defs).unwrap_err();
    assert_eq!(err.message(), "Duplicate interface member name: \"f\"");
}

#[test]
fn same_method_names_across_two_delegates_are_legal() {
    let defs = vec![
        namespace("test"),
        iface(
            "First",
            delegate_flag(),
            vec![op("f", ReturnTypeExpr::Void, vec![])],
        ),
        iface(
            "Second",
            delegate_flag(),
            vec![op("f", ReturnTypeExpr::Void, vec![])],
        ),
    ];
    let ci = ComponentInterface::from_declarations(&defs).unwrap();
    assert_eq!(ci.iter_delegate_definitions().len(), 2);
    assert!(ci.get_delegate_definition("First").unwrap().find_method("f").is_some());
    assert!(ci.get_delegate_definition("Second").unwrap().find_method("f").is_some());
}

#[test]
fn delegation_is_none_when_delegate_or_method_is_missing() {
    let defs = vec![
        namespace("test"),
        iface(
            "D",
            delegate_flag(),
            vec![op("f", ReturnTypeExpr::Void, vec![])],
        ),
        iface(
            "O",
            vec![AttrDecl::NamedValue("Delegate".to_string(), "D".to_string())],
            vec![
                op(
                    "g",
                    ReturnTypeExpr::Void,
                    vec![AttrDecl::NamedValue(
                        "CallWith".to_string(),
                        "missing".to_string(),
                    )],
                ),
                op("plain", ReturnTypeExpr::Void, vec![]),
            ],
        ),
    ];
    let ci = ComponentInterface::from_declarations(&defs).unwrap();
    let obj = ci.get_object_definition("O").unwrap();

    // The referenced method does not exist: both queries answer None.
    let g = obj.find_method("g").unwrap();
    let dobj = ci.get_delegate_definition("D");
    assert_eq!(g.delegated_return_type(&dobj), None);
    assert_eq!(g.delegated_throws_type(&dobj), None);

    // The delegate itself cannot be found: both queries answer None.
    let nowhere = ci.get_delegate_definition("Nowhere");
    assert!(nowhere.is_none());
    assert_eq!(g.delegated_return_type(&nowhere), None);
    assert_eq!(g.delegated_throws_type(&nowhere), None);

    // No call-with relation at all: both queries answer None.
    let plain = obj.find_method("plain").unwrap();
    assert_eq!(plain.delegated_return_type(&dobj), None);
    assert_eq!(plain.delegated_throws_type(&dobj), None);

    // Repeated queries yield identical results.
    assert_eq!(g.delegated_return_type(&dobj), g.delegated_return_type(&dobj));
    assert_eq!(g.delegated_throws_type(&dobj), g.delegated_throws_type(&dobj));
}

#[test]
fn simple_delegation_scenario_yields_none_for_both() {
    // [Delegate] interface D { void f(); }
    // [Delegate=D] interface O { [CallWith=f] void g(); }
    let defs = vec![
        namespace("test"),
        iface(
            "D",
            delegate_flag(),
            vec![op("f", ReturnTypeExpr::Void, vec![])],
        ),
        iface(
            "O",
            vec![AttrDecl::NamedValue("Delegate".to_string(), "D".to_string())],
            vec![op(
                "g",
                ReturnTypeExpr::Void,
                vec![AttrDecl::NamedValue("CallWith".to_string(), "f".to_string())],
            )],
        ),
    ];
    let ci = ComponentInterface::from_declarations(&defs).unwrap();
    let obj = ci.get_object_definition("O").unwrap();
    let g = obj.find_method("g").unwrap();
    let dobj = ci.get_delegate_definition("D");
    assert_eq!(g.delegated_return_type(&dobj), None);
    assert_eq!(g.delegated_throws_type(&dobj), None);
    assert_eq!(obj.delegate_name, Some("D".to_string()));
}

#[test]
fn throws_scenario_resolves_to_the_named_error() {
    // [Delegate] interface D { [Throws=E] void f(); }
    // [Delegate=D] interface O { [CallWith=f] void g(); }
    // [Error] enum E { "X" };  (declared after the interfaces)
    let defs = vec![
        namespace("test"),
        iface(
            "D",
            delegate_flag(),
            vec![op(
                "f",
                ReturnTypeExpr::Void,
                vec![AttrDecl::NamedValue("Throws".to_string(), "E".to_string())],
            )],
        ),
        iface(
            "O",
            vec![AttrDecl::NamedValue("Delegate".to_string(), "D".to_string())],
            vec![op(
                "g",
                ReturnTypeExpr::Void,
                vec![AttrDecl::NamedValue("CallWith".to_string(), "f".to_string())],
            )],
        ),
        error_enum("E", &["X"]),
    ];
    let ci = ComponentInterface::from_declarations(&defs).unwrap();
    let obj = ci.get_object_definition("O").unwrap();
    let g = obj.find_method("g").unwrap();
    let dobj = ci.get_delegate_definition("D");
    assert_eq!(g.delegated_throws_type(&dobj), Some(Type::Error("E".into())));
    assert_eq!(g.delegated_return_type(&dobj), None);
    // The delegate method's own view of its throws clause.
    let f = ci
        .get_delegate_definition("D")
        .unwrap()
        .find_method("f")
        .unwrap();
    assert_eq!(f.throws(), Some("E"));
    assert_eq!(f.throws_type(), Some(Type::Error("E".into())));
}

#[test]
fn composite_return_type_is_inherited_exactly() {
    // A delegate method returning sequence<i32?> resolves to
    // Sequence(Optional(Int32)), and a method delegating through it
    // inherits exactly that composite type.
    let defs = vec![
        namespace("test"),
        iface(
            "D",
            delegate_flag(),
            vec![op(
                "f",
                ReturnTypeExpr::Expr(TypeExpr::Sequence(Box::new(TypeExpr::Optional(Box::new(
                    TypeExpr::I32,
                ))))),
                vec![],
            )],
        ),
        iface(
            "O",
            vec![AttrDecl::NamedValue("Delegate".to_string(), "D".to_string())],
            vec![op(
                "g",
                ReturnTypeExpr::Void,
                vec![AttrDecl::NamedValue("CallWith".to_string(), "f".to_string())],
            )],
        ),
    ];
    let ci = ComponentInterface::from_declarations(&defs).unwrap();
    let expected = Type::Sequence(Box::new(Type::Optional(Box::new(Type::Int32))));
    let f = ci
        .get_delegate_definition("D")
        .unwrap()
        .find_method("f")
        .unwrap();
    assert_eq!(f.return_type(), &ReturnType::Type(expected.clone()));
    let obj = ci.get_object_definition("O").unwrap();
    let g = obj.find_method("g").unwrap();
    let dobj = ci.get_delegate_definition("D");
    assert_eq!(g.delegated_return_type(&dobj), Some(expected));
}

#[test]
fn each_failure_kind_reports_its_message() {
    // Inheritance clause.
    let defs = vec![DefinitionDecl::Interface(InterfaceDecl {
        name: "Kid".to_string(),
        inheritance: Some("Parent".to_string()),
        attributes: delegate_flag(),
        members: vec![],
    })];
    let err = ComponentInterface::from_declarations(&defs).unwrap_err();
    assert_eq!(err.message(), "interface inheritence is not supported");

    // A member that is not a plain operation.
    let defs = vec![iface("D", delegate_flag(), vec![MemberDecl::Other])];
    let err = ComponentInterface::from_declarations(&defs).unwrap_err();
    assert_eq!(err.message(), "no support for interface member type yet");

    // A special or modifier marker.
    let defs = vec![iface(
        "D",
        delegate_flag(),
        vec![MemberDecl::Operation(OperationDecl {
            name: Some("f".to_string()),
            special: true,
            modifier: false,
            args: vec![],
            return_type: ReturnTypeExpr::Void,
            attributes: vec![],
        })],
    )];
    let err = ComponentInterface::from_declarations(&defs).unwrap_err();
    assert_eq!(err.message(), "method modifiers are not supported");

    // An anonymous operation.
    let defs = vec![iface(
        "D",
        delegate_flag(),
        vec![MemberDecl::Operation(OperationDecl {
            name: None,
            special: false,
            modifier: false,
            args: vec![],
            return_type: ReturnTypeExpr::Void,
            attributes: vec![],
        })],
    )];
    let err = ComponentInterface::from_declarations(&defs).unwrap_err();
    assert_eq!(err.message(), "anonymous methods are not supported");

    // An unresolved return type.
    let defs = vec![iface(
        "D",
        delegate_flag(),
        vec![op(
            "f",
            ReturnTypeExpr::Expr(TypeExpr::Named("Missing".to_string())),
            vec![],
        )],
    )];
    let err = ComponentInterface::from_declarations(&defs).unwrap_err();
    assert_eq!(err.message(), "unresolved type name: \"Missing\"");

    // A malformed method attribute.
    let defs = vec![iface(
        "D",
        delegate_flag(),
        vec![op(
            "f",
            ReturnTypeExpr::Void,
            vec![AttrDecl::Flag("SelfByArc".to_string())],
        )],
    )];
    let err = ComponentInterface::from_declarations(&defs).unwrap_err();
    assert_eq!(err.message(), "a method attribute must be Throws or CallWith");

    // Two delegates under one name.
    let defs = vec![
        iface("D", delegate_flag(), vec![]),
        iface("D", delegate_flag(), vec![]),
    ];
    let err = ComponentInterface::from_declarations(&defs).unwrap_err();
    assert_eq!(err.message(), "Duplicate interface member name: \"D\"");
}

#[test]
fn named_types_resolve_by_category() {
    let defs = vec![
        namespace("test"),
        iface("Del", delegate_flag(), vec![]),
        iface(
            "Obj",
            vec![],
            vec![
                op(
                    "gets_delegate",
                    ReturnTypeExpr::Expr(TypeExpr::Named("Del".to_string())),
                    vec![],
                ),
                op(
                    "gets_enum",
                    ReturnTypeExpr::Expr(TypeExpr::Named("Plain".to_string())),
                    vec![],
                ),
                op(
                    "gets_error",
                    ReturnTypeExpr::Expr(TypeExpr::Named("Boom".to_string())),
                    vec![],
                ),
            ],
        ),
        DefinitionDecl::Enum(EnumDecl {
            name: "Plain".to_string(),
            attributes: vec![],
            variants: vec!["A".to_string()],
        }),
        error_enum("Boom", &["B"]),
    ];
    let ci = ComponentInterface::from_declarations(&defs).unwrap();
    let obj = ci.get_object_definition("Obj").unwrap();
    assert_eq!(
        obj.find_method("gets_delegate").unwrap().return_type,
        ReturnType::Type(Type::DelegateObject("Del".into()))
    );
    assert_eq!(
        obj.find_method("gets_enum").unwrap().return_type,
        ReturnType::Type(Type::Enum("Plain".into()))
    );
    assert_eq!(
        obj.find_method("gets_error").unwrap().return_type,
        ReturnType::Type(Type::Error("Boom".into()))
    );
}

#[test]
fn identity_string_hands_its_argument_back() {
    let o = uniffi_bindgen::sample::RustObject::new();
    assert_eq!(o.identity_string("delegates".to_string()), "delegates");
    let o2 = uniffi_bindgen::sample::RustObject::from_string("cfg".to_string());
    assert_eq!(o2.identity_string(String::new()), "");
}

#[test]
fn passthrough_with_void_declaration_resolves_to_none() {
    // A pass-through delegate method hands back the delegating method's
    // own declared type; when that method declares void, there is none.
    let defs = vec![
        namespace("test"),
        iface(
            "D",
            delegate_flag(),
            vec![op("relay", ReturnTypeExpr::Expr(TypeExpr::Any), vec![])],
        ),
        iface(
            "O",
            vec![AttrDecl::NamedValue("Delegate".to_string(), "D".to_string())],
            vec![op(
                "g",
                ReturnTypeExpr::Void,
                vec![AttrDecl::NamedValue(
                    "CallWith".to_string(),
                    "relay".to_string(),
                )],
            )],
        ),
    ];
    let ci = ComponentInterface::from_declarations(&defs).unwrap();
    let obj = ci.get_object_definition("O").unwrap();
    let g = obj.find_method("g").unwrap();
    let dobj = ci.get_delegate_definition("D");
    assert_eq!(g.delegated_return_type(&dobj), None);
}

#[test]
fn a_repeated_method_attribute_is_malformed() {
    let defs = vec![iface(
        "D",
        delegate_flag(),
        vec![op(
            "f",
            ReturnTypeExpr::Void,
            vec![
                AttrDecl::NamedValue("Throws".to_string(), "E".to_string()),
                AttrDecl::NamedValue("Throws".to_string(), "F".to_string()),
            ],
        )],
    )];
    let err = ComponentInterface::from_declarations(&defs).unwrap_err();
    assert_eq!(err.message(), "duplicate method attribute");
}

#[test]
fn an_empty_identifier_is_an_anonymous_method() {
    let defs = vec![iface(
        "D",
        delegate_flag(),
        vec![op("", ReturnTypeExpr::Void, vec![])],
    )];
    let err = ComponentInterface::from_declarations(&defs).unwrap_err();
    assert_eq!(err.message(), "anonymous methods are not supported");
}

#[test]
fn builtin_spellings_resolve_before_the_registry() {
    // Bare names spelling primitives resolve to the built-in types, and
    // the bare name `void` in return position means no return type.
    let defs = vec![
        namespace("test"),
        iface(
            "D",
            delegate_flag(),
            vec![
                op(
                    "counts",
                    ReturnTypeExpr::Expr(TypeExpr::Named("u32".to_string())),
                    vec![],
                ),
                op(
                    "speaks",
                    ReturnTypeExpr::Expr(TypeExpr::Named("string".to_string())),
                    vec![],
                ),
                op(
                    "quiet",
                    ReturnTypeExpr::Expr(TypeExpr::Named("void".to_string())),
                    vec![],
                ),
            ],
        ),
    ];
    let ci = ComponentInterface::from_declarations(&defs).unwrap();
    let d = ci.get_delegate_definition("D").unwrap();
    assert_eq!(
        d.find_method("counts").unwrap().return_type(),
        &ReturnType::Type(Type::UInt32)
    );
    assert_eq!(
        d.find_method("speaks").unwrap().return_type(),
        &ReturnType::Type(Type::String)
    );
    assert_eq!(d.find_method("quiet").unwrap().return_type(), &ReturnType::Void);
}
