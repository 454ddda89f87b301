use uniffi_bindgen::backend::Literal;
use uniffi_bindgen::component::{CallbackInterface, ComponentInterface};
use uniffi_bindgen::gen_kotlin::callback_interface::{
    CallbackInterfaceCodeType, KotlinCallbackInterface, KotlinCallbackInterfaceRuntime,
};
use uniffi_bindgen::gen_kotlin::delegate::{DelegateObjectCodeType, KotlinDelegateObject};
use uniffi_bindgen::gen_kotlin::VerbatimOracle;
use uniffi_bindgen::runtime::ConverterRegistry;
use uniffi_bindgen::syntax::{AttrDecl, DefinitionDecl, InterfaceDecl};

fn callback_iface(name: &str) -> DefinitionDecl {
    DefinitionDecl::CallbackInterface(InterfaceDecl {
        name: name.to_string(),
        inheritance: None,
        attributes: vec![],
        members: vec![],
    })
}

fn empty_component() -> ComponentInterface {
    ComponentInterface::from_declarations(&vec![DefinitionDecl::Namespace(
        "test".to_string(),
    )])
    .unwrap()
}

fn component_with_callback() -> ComponentInterface {
    ComponentInterface::from_declarations(&vec![
        DefinitionDecl::Namespace("test".to_string()),
        callback_iface("Watcher"),
    ])
    .unwrap()
}

#[test]
fn callback_interface_code_type_builds_namespaced_names() {
    let oracle = VerbatimOracle;
    let ct = CallbackInterfaceCodeType::new("Watcher".to_string());
    assert_eq!(ct.type_label(&oracle), "Watcher");
    assert_eq!(ct.canonical_name(&oracle), "CallbackInterfaceWatcher");
    assert_eq!(ct.ffi_converter_name(&oracle), "FfiConverterCallbackInterfaceWatcher");
    assert_eq!(
        ct.lower(&oracle, &"cb".to_string()),
        "FfiConverterCallbackInterfaceWatcher.lower(cb)"
    );
    assert_eq!(
        ct.write(&oracle, &"cb".to_string(), &"buf".to_string()),
        "FfiConverterCallbackInterfaceWatcher.write(cb, buf)"
    );
    assert_eq!(
        ct.lift(&oracle, &"handle".to_string()),
        "FfiConverterCallbackInterfaceWatcher.lift(handle)"
    );
    assert_eq!(
        ct.read(&oracle, &"stream".to_string()),
        "FfiConverterCallbackInterfaceWatcher.read(stream)"
    );
    assert_eq!(
        ct.helper_code(&oracle).unwrap(),
        "// Helper code for Watcher callback interface is found in CallbackInterfaceTemplate.kt"
    );
    assert!(ct.literal(&oracle, &Literal::Null).is_none());
    assert!(ct.literal(&oracle, &Literal::Boolean(true)).is_none());
}

#[test]
fn delegate_code_type_builds_namespaced_names() {
    let oracle = VerbatimOracle;
    let ct = DelegateObjectCodeType::new("Worker".to_string());
    assert_eq!(ct.type_label(&oracle), "Worker");
    assert_eq!(ct.canonical_name(&oracle), "DelegateWorker");
    // The namespaced canonical names never collide with the bare class
    // name or with each other.
    let cb = CallbackInterfaceCodeType::new("Worker".to_string());
    assert_ne!(ct.canonical_name(&oracle), "Worker");
    assert_ne!(cb.canonical_name(&oracle), "Worker");
    assert_ne!(ct.canonical_name(&oracle), cb.canonical_name(&oracle));
}

#[test]
fn callback_declaration_emits_registration_and_imports() {
    let oracle = VerbatimOracle;
    let ci = component_with_callback();
    let inner: CallbackInterface = (*ci.iter_callback_interface_definitions()[0]).clone();
    assert_eq!(inner.name(), "Watcher");
    let decl = KotlinCallbackInterface::new(inner, &ci);
    assert_eq!(decl.inner().name(), "Watcher");
    assert_eq!(
        decl.initialization_code(&oracle).unwrap(),
        "FfiConverterCallbackInterfaceWatcher.register(lib)"
    );
    let imports = decl.imports(&oracle).unwrap();
    assert_eq!(
        imports,
        vec![
            "java.util.concurrent.locks.ReentrantLock".to_string(),
            "kotlin.concurrent.withLock".to_string(),
        ]
    );
}

#[test]
fn runtime_support_is_gated_on_callback_definitions() {
    let with = KotlinCallbackInterfaceRuntime::new(&component_with_callback());
    assert!(with.is_needed());
    let without = KotlinCallbackInterfaceRuntime::new(&empty_component());
    assert!(!without.is_needed());
}

#[test]
fn kotlin_delegate_object_wraps_its_definition() {
    let ci = ComponentInterface::from_declarations(&vec![
        DefinitionDecl::Namespace("test".to_string()),
        DefinitionDecl::Interface(InterfaceDecl {
            name: "Worker".to_string(),
            inheritance: None,
            attributes: vec![AttrDecl::Flag("Delegate".to_string())],
            members: vec![],
        }),
    ])
    .unwrap();
    let inner = ci.get_delegate_definition("Worker").unwrap().clone();
    let decl = KotlinDelegateObject::new(inner, &ci);
    assert_eq!(decl.inner().name(), "Worker");
}

#[test]
fn converter_registration_is_idempotent() {
    let mut reg = ConverterRegistry::new();
    let name = "FfiConverterCallbackInterfaceWatcher".to_string();
    assert!(!reg.is_registered(&name));
    reg.register(&name);
    assert!(reg.is_registered(&name));
    // A call after the first is a no-op, never an error.
    reg.register(&name);
    reg.register(&name);
    assert!(reg.is_registered(&name));
    assert_eq!(reg.registered.len(), 1);
    // Other names still enter.
    reg.register(&"FfiConverterDelegateWorker".to_string());
    assert_eq!(reg.registered.len(), 2);
}
