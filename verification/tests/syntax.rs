use pyo3_bindgen_engine::config::{is_forbidden_function_name, Config};
use pyo3_bindgen_engine::ident::Ident;
use pyo3_bindgen_engine::path::Path;
use pyo3_bindgen_engine::syntax::attribute_variant::{AttributeTraits, AttributeVariant};
use pyo3_bindgen_engine::syntax::import::{Import, ImportType};
use pyo3_bindgen_engine::syntax::type_var::TypeVar;

fn traits() -> AttributeTraits {
    AttributeTraits {
        class_name: "int".to_string(),
        class_module: "builtins".to_string(),
        is_submodule: false,
        is_class: false,
        is_builtin_function: false,
        is_function: false,
        is_method: false,
        text: "42".to_string(),
    }
}

fn kind(t: &AttributeTraits, attr_module: &str, owner: &str, consider_import: bool) -> AttributeVariant {
    AttributeVariant::determine(t, &Path::from_py(attr_module), &Path::from_py(owner), consider_import)
}

#[test]
fn variant_plain_value_is_a_property() {
    assert_eq!(kind(&traits(), "", "pkg", true), AttributeVariant::Property);
    assert_eq!(kind(&traits(), "other", "pkg", true), AttributeVariant::Property);
}

#[test]
fn variant_follows_the_fixed_order() {
    let mut t = traits();
    t.is_method = true;
    assert_eq!(kind(&t, "pkg", "pkg", true), AttributeVariant::Method);
    t.is_function = true;
    assert_eq!(kind(&t, "pkg", "pkg", true), AttributeVariant::Function);
    t.is_class = true;
    assert_eq!(kind(&t, "pkg", "pkg", true), AttributeVariant::Class);
    t.is_submodule = true;
    assert_eq!(kind(&t, "pkg", "pkg", true), AttributeVariant::Module);
    assert_eq!(kind(&t, "elsewhere", "pkg", true), AttributeVariant::Import);
    assert_eq!(kind(&t, "elsewhere", "pkg", false), AttributeVariant::Module);
    let mut b = traits();
    b.is_builtin_function = true;
    assert_eq!(kind(&b, "elsewhere", "pkg", true), AttributeVariant::Function);
}

#[test]
fn variant_local_definitions_are_not_imports() {
    let mut t = traits();
    t.is_class = true;
    t.text = "<class 'pkg.make.<locals>.Inner'>".to_string();
    assert_eq!(kind(&t, "elsewhere", "pkg", true), AttributeVariant::Class);
}

#[test]
fn variant_closures_and_type_markers() {
    let mut t = traits();
    t.class_module = "functools".to_string();
    t.class_name = "partial".to_string();
    assert_eq!(kind(&t, "", "pkg", true), AttributeVariant::Closure);
    t.class_name = "other".to_string();
    assert_eq!(kind(&t, "", "pkg", true), AttributeVariant::Property);
    t.class_module = "typing".to_string();
    assert_eq!(kind(&t, "", "pkg", true), AttributeVariant::TypeVar);
    t.class_module = "types".to_string();
    assert_eq!(kind(&t, "", "pkg", true), AttributeVariant::TypeVar);
}

#[test]
fn variant_goes_by_the_exact_module_of_the_type() {
    let mut t = traits();
    t.class_name = "partial".to_string();
    for module in ["functools.", ".functools", "functools.sub", "Functools", ""] {
        t.class_module = module.to_string();
        assert_eq!(kind(&t, "", "pkg", true), AttributeVariant::Property);
    }
    for module in ["typing.", "types.", "typing.sub", "type"] {
        t.class_module = module.to_string();
        assert_eq!(kind(&t, "", "pkg", true), AttributeVariant::Property);
    }
    t.class_module = "functools".to_string();
    t.class_name = "partial.".to_string();
    assert_eq!(kind(&t, "", "pkg", true), AttributeVariant::Property);
}

#[test]
fn import_kinds() {
    let kind = |origin: &str, target: &str| {
        Import::new(Path::from_py(origin), Path::from_py(target)).import_type
    };
    assert_eq!(kind("other.mod.f", "pkg.f"), ImportType::ExternalImport);
    assert_eq!(kind("pkg.other.f", "pkg.sub.f"), ImportType::PackageReexport);
    assert_eq!(kind("pkg.sub.inner.f", "pkg.sub.f"), ImportType::SubmoduleReexport);
    assert_eq!(kind("pkg.f", "pkg.f"), ImportType::SubmoduleReexport);
    assert_eq!(kind("pkg.f", "f"), ImportType::ExternalImport);
    assert_eq!(kind("f", "f"), ImportType::PackageReexport);
    assert_eq!(kind("pkg.f", ""), ImportType::ExternalImport);
    assert_eq!(
        ImportType::from_paths(&Path::from_py("a.b"), &Path::from_py("a.c")),
        ImportType::SubmoduleReexport
    );
    assert!(Import::new(Path::from_py("x.y"), Path::from_py("pkg.y")).is_external());
    assert!(!Import::new(Path::from_py("pkg.x.y"), Path::from_py("pkg.y")).is_external());
}

#[test]
fn import_code() {
    let code = |origin: &str, target: &str| {
        Import::new(Path::from_py(origin), Path::from_py(target)).generate().unwrap()
    };
    assert_eq!(code("pkg.sub.inner.f", "pkg.sub.f"), "pub use self::inner::f;\n");
    assert_eq!(code("pkg.sub.inner.f", "pkg.sub.g"), "pub use self::inner::f as g;\n");
    assert_eq!(code("pkg.sub.inner.f", "pkg.sub.type"), "pub use self::inner::f as r#type;\n");
    assert_eq!(code("pkg.other.f", "pkg.sub.f"), "");
    assert_eq!(code("other.f", "pkg.f"), "");
    assert_eq!(code("pkg.f", "pkg.f"), "");
    assert_eq!(code("pkg.sub", "pkg.sub.f"), "pub use super::sub as f;\n");
}

#[test]
fn import_code_fails_on_an_alias_that_is_no_identifier() {
    let import = Import::new(Path::from_py("pkg.sub.inner.f"), Path::from_py("pkg.sub.self"));
    assert!(import.generate().is_err());
    let message = import.generate().unwrap_err().message();
    assert!(!message.is_empty());
}

#[test]
fn type_var_code() {
    let t = TypeVar::new(Path::from_py("pkg.T"));
    assert_eq!(t.generate().unwrap(), "pub type T = ::pyo3::types::PyAny;\n");
    assert!(TypeVar::new(Path::from_py("pkg.self")).generate().is_err());
    assert_eq!(
        TypeVar::new(Path::from_py("pkg.type")).generate().unwrap(),
        "pub type r#type = ::pyo3::types::PyAny;\n"
    );
}

#[test]
fn config_default_values() {
    let cfg = Config::default();
    assert!(cfg.traverse_submodules);
    assert!(cfg.generate_preludes);
    assert!(cfg.generate_imports);
    assert!(cfg.generate_classes);
    assert!(cfg.generate_type_vars);
    assert!(cfg.generate_functions);
    assert!(cfg.generate_properties);
    assert!(cfg.generate_docs);
    assert_eq!(cfg.blocklist_names, vec!["builtins", "testing", "tests", "test"]);
    assert!(!cfg.include_private);
    assert!(!cfg.generate_dependencies);
    assert!(cfg.suppress_python_stdout);
    assert!(cfg.suppress_python_stderr);
    assert_eq!(cfg.clone().blocklist_names, cfg.blocklist_names);
}

#[test]
fn config_attribute_filter() {
    let cfg = Config::default();
    let allowed = |cfg: &Config, name: &str, module: &str| {
        cfg.is_attr_allowed(&Ident::from_py(name), &Path::from_py(module))
    };
    assert!(allowed(&cfg, "value", "pkg.mod"));
    assert!(allowed(&cfg, "value", ""));
    assert!(!allowed(&cfg, "_value", "pkg.mod"));
    assert!(!allowed(&cfg, "value", "pkg._private"));
    assert!(!allowed(&cfg, "tests", "pkg"));
    assert!(!allowed(&cfg, "builtins", "pkg"));
    assert!(!allowed(&cfg, "py", "pkg"));
    assert!(!allowed(&cfg, "repr", "pkg"));
    assert!(!allowed(&cfg, "annotations", "__future__"));
    assert!(!allowed(&cfg, "Any", "typing"));
    assert!(allowed(&cfg, "Any", "typing_extensions"));
    assert!(allowed(&cfg, "struct", "pkg"));
    let mut open = Config::default();
    open.include_private = true;
    open.blocklist_names = Vec::new();
    assert!(allowed(&open, "_value", "pkg._private"));
    assert!(allowed(&open, "tests", "pkg"));
    assert!(!allowed(&open, "annotations", "a.__future__"));
    assert!(!allowed(&open, "str", "pkg"));
    assert!(is_forbidden_function_name("get_type"));
    assert!(!is_forbidden_function_name("get_types"));
}
