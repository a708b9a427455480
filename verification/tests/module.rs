use pyo3_bindgen_engine::codegen::Codegen;
use pyo3_bindgen_engine::config::Config;
use pyo3_bindgen_engine::error::PyBindgenError;
use pyo3_bindgen_engine::ident::Ident;
use pyo3_bindgen_engine::path::Path;
use pyo3_bindgen_engine::syntax::attribute_variant::AttributeTraits;
use pyo3_bindgen_engine::syntax::class::{Class, ClassFacts, MemberFacts};
use pyo3_bindgen_engine::syntax::function::{
    Binding, FunctionFacts, FunctionType, MethodType, ParameterFacts, ParameterKind, SignatureFacts,
};
use pyo3_bindgen_engine::syntax::import::ImportType;
use pyo3_bindgen_engine::syntax::module::Module;
use pyo3_bindgen_engine::syntax::module_parse::{AttributeFacts, ModuleFacts, SubmoduleFacts};
use pyo3_bindgen_engine::syntax::property::{AccessorFacts, PropertyFacts, PropertyOwner, Property};
use pyo3_bindgen_engine::traits::Canonicalize;
use pyo3_bindgen_engine::typing::annotation::{Annotation, BuiltinClass};
use pyo3_bindgen_engine::typing::local_types::LocalTypes;
use pyo3_bindgen_engine::typing::Type;

fn traits(class_name: &str, class_module: &str, text: &str) -> AttributeTraits {
    AttributeTraits {
        class_name: class_name.to_string(),
        class_module: class_module.to_string(),
        is_submodule: false,
        is_class: false,
        is_builtin_function: false,
        is_function: false,
        is_method: false,
        text: text.to_string(),
    }
}

fn class_of(base: BuiltinClass, text: &str) -> Annotation {
    Annotation::Class { bases: vec![base], text: text.to_string() }
}

fn value(name: &str, class_name: &str, base: BuiltinClass) -> AttributeFacts {
    AttributeFacts {
        name: name.to_string(),
        module: String::new(),
        own_name: None,
        traits: traits(class_name, "builtins", "0"),
        function: None,
        property: Some(PropertyFacts {
            value_type: class_of(base, &format!("<class '{class_name}'>")),
            getter: None,
            setter: None,
        }),
        class: None,
    }
}

fn signature(params: Vec<ParameterFacts>, ret: Option<Annotation>) -> Option<SignatureFacts> {
    Some(SignatureFacts { parameters: params, return_annotation: ret })
}

fn param(name: &str, annotation: Option<Annotation>, has_default: bool) -> ParameterFacts {
    ParameterFacts {
        name: name.to_string(),
        kind: ParameterKind::PositionalOrKeyword,
        annotation,
        has_default,
    }
}

fn function(name: &str, module: &str, doc: &str, sig: Option<SignatureFacts>) -> AttributeFacts {
    let mut t = traits("function", "builtins", &format!("<function {name}>"));
    t.is_function = true;
    AttributeFacts {
        name: name.to_string(),
        module: module.to_string(),
        own_name: Some(name.to_string()),
        traits: t,
        function: Some(FunctionFacts { doc: doc.to_string(), signature: sig, binding: Binding::Missing }),
        property: None,
        class: None,
    }
}

fn class(name: &str, module: &str, facts: ClassFacts) -> AttributeFacts {
    let mut t = traits("type", "builtins", &format!("<class '{module}.{name}'>"));
    t.is_class = true;
    AttributeFacts {
        name: name.to_string(),
        module: module.to_string(),
        own_name: Some(name.to_string()),
        traits: t,
        function: None,
        property: None,
        class: Some(facts),
    }
}

fn submodule_attribute(name: &str) -> AttributeFacts {
    let mut t = traits("module", "builtins", &format!("<module '{name}'>"));
    t.is_submodule = true;
    AttributeFacts {
        name: name.to_string(),
        module: "pkg".to_string(),
        own_name: Some(format!("pkg.{name}")),
        traits: t,
        function: None,
        property: None,
        class: None,
    }
}

fn module(name: &str, attributes: Vec<AttributeFacts>) -> ModuleFacts {
    ModuleFacts {
        name: name.to_string(),
        doc: "None".to_string(),
        is_package: false,
        index: None,
        attributes,
        packaged: vec![],
        submodules: vec![],
    }
}

fn method(name: &str, doc: &str, params: Vec<ParameterFacts>, binding: Binding) -> MemberFacts {
    let mut t = traits("function", "builtins", &format!("<function {name}>"));
    t.is_function = true;
    MemberFacts {
        name: name.to_string(),
        module: name.to_string(),
        traits: t,
        function: Some(FunctionFacts { doc: doc.to_string(), signature: signature(params, None), binding }),
        property: None,
    }
}

fn names<T>(list: &[T], name: impl Fn(&T) -> &Path) -> Vec<String> {
    list.iter().map(|x| name(x).to_py()).collect()
}

fn generate(facts: &[ModuleFacts]) -> String {
    let cfg = Config::default();
    let mut engine = Codegen::new(cfg.clone());
    for f in facts {
        engine = engine.module(Module::parse(&cfg, f));
    }
    engine.generate(&vec![]).unwrap()
}

#[test]
fn module_with_one_constant() {
    let facts = module("mod_const", vec![value("t_const_float", "float", BuiltinClass::PyFloat)]);
    let m = Module::parse(&Config::default(), &facts);
    assert_eq!(m.name.to_py(), "mod_const");
    assert!(m.docstring.is_none());
    assert!(m.classes.is_empty());
    assert!(m.functions.is_empty());
    assert!(m.imports.is_empty());
    assert!(m.submodules.is_empty());
    assert!(m.type_vars.is_empty());
    assert!(m.prelude.is_empty());
    assert_eq!(m.properties.len(), 1);
    let p = &m.properties[0];
    assert_eq!(p.name.to_py(), "mod_const.t_const_float");
    assert_eq!(p.owner, PropertyOwner::Module);
    assert!(p.is_mutable);
    assert!(p.annotation == Type::PyFloat);
    assert!(p.setter_annotation == Type::PyFloat);

    let code = generate(&[facts]);
    assert_eq!(
        code,
        "#[allow(clippy::all, clippy::nursery, clippy::pedantic, non_camel_case_types, non_snake_case, \
         non_upper_case_globals, unused)]\n\
         pub mod mod_const {\n\
         pub fn t_const_float<'py>(py: ::pyo3::marker::Python<'py>) -> ::pyo3::PyResult<f64> {\n\
         ::pyo3::types::PyAnyMethods::extract(&::pyo3::types::PyAnyMethods::getattr(\
         py.import(::pyo3::intern!(py, \"mod_const\"))?.as_any(), ::pyo3::intern!(py, \"t_const_float\"))?)\n\
         }\n\
         pub fn set_t_const_float<'py>(py: ::pyo3::marker::Python<'py>, p_value: f64) -> ::pyo3::PyResult<()> {\n\
         ::pyo3::types::PyAnyMethods::setattr(py.import(::pyo3::intern!(py, \"mod_const\"))?.as_any(), \
         ::pyo3::intern!(py, \"t_const_float\"), p_value)\n\
         }\n\
         }\n"
    );
    assert_eq!(code.matches("pub fn t_const_float<").count(), 1);
    assert_eq!(code.matches("pub fn set_t_const_float<").count(), 1);
    assert_eq!(code.matches("#[doc").count(), 0);
    assert_eq!(code.matches("pub struct").count(), 0);
}

#[test]
fn class_with_a_constructor() {
    let optional_int = Annotation::Typing {
        origin: Some(Box::new(Annotation::Typing {
            origin: None,
            args: None,
            text: "typing.Union".to_string(),
        })),
        args: Some(vec![
            class_of(BuiltinClass::PyLong, "<class 'int'>"),
            Annotation::Class { bases: vec![], text: "<class 'NoneType'>".to_string() },
        ]),
        text: "typing.Optional[int]".to_string(),
    };
    let facts = ClassFacts {
        doc: "A thing.".to_string(),
        members: vec![method(
            "__init__",
            "Makes a thing.",
            vec![
                param("self", None, false),
                param("a", Some(Annotation::Text("str".to_string())), false),
                param("b", Some(optional_int), true),
            ],
            Binding::Plain,
        )],
    };
    let c = Class::parse(&Config::default(), &facts, Path::from_py("pkg.Thing"));
    assert_eq!(c.methods.len(), 1);
    assert!(c.properties.is_empty());
    assert_eq!(c.docstring.as_deref(), Some("A thing."));
    let init = &c.methods[0];
    assert_eq!(init.name.to_py(), "pkg.Thing.__init__");
    assert!(matches!(init.typ, FunctionType::Method { typ: MethodType::Constructor, .. }));
    assert_eq!(init.parameters.len(), 2);
    assert_eq!(init.parameters[0].name.as_py(), "a");
    assert!(init.parameters[0].annotation == Type::PyString);
    assert_eq!(init.parameters[1].name.as_py(), "b");
    assert!(init.parameters[1].annotation == Type::Optional(Box::new(Type::PyLong)));
    assert!(init.parameters[1].has_default);
    assert_eq!(init.docstring.as_deref(), Some("Makes a thing."));

    let code = c.generate(&Config::default(), &LocalTypes::new(), &vec![]);
    assert!(code.starts_with("#[doc = \" A thing.\"]\n#[repr(transparent)]\npub struct Thing(::pyo3::PyAny);\n"));
    assert!(code.contains(
        "impl Thing {\n#[doc = \" Makes a thing.\"]\npub fn new<'py>(py: ::pyo3::marker::Python<'py>, \
         p_a: &str, p_b: Option<::std::option::Option<i64>>) -> ::pyo3::PyResult<::pyo3::Bound<'py, Self>> {\n"
    ));
    assert!(code.contains("::std::option::Option::Some(\"pkg.Thing\")"));
    assert!(code.contains("pub trait ThingMethods {\n}\n"));
    assert!(code.ends_with("impl ThingMethods for ::pyo3::Bound<'_, Thing> {\n}\n"));
}

#[test]
fn class_members_are_sorted_into_methods_and_properties() {
    let mut private = method("_hidden", "", vec![param("self", None, false)], Binding::Plain);
    private.module = "pkg".to_string();
    let mut value_member = MemberFacts {
        name: "size".to_string(),
        module: String::new(),
        traits: traits("property", "builtins", "<property object>"),
        function: None,
        property: Some(PropertyFacts {
            value_type: Annotation::Class { bases: vec![], text: "<class 'property'>".to_string() },
            getter: Some(AccessorFacts {
                doc: "The size.".to_string(),
                signature: signature(
                    vec![param("self", None, false)],
                    Some(Annotation::Text("int".to_string())),
                ),
            }),
            setter: None,
        }),
    };
    let facts = ClassFacts {
        doc: String::new(),
        members: vec![
            method("run", "", vec![param("self", None, false)], Binding::Plain),
            private,
            method("__call__", "", vec![param("self", None, false)], Binding::Plain),
            method("run", "", vec![], Binding::StaticMethod),
            value_member,
        ],
    };
    let c = Class::parse(&Config::default(), &facts, Path::from_py("pkg.C"));
    assert_eq!(names(&c.methods, |f| &f.name), vec!["pkg.C.run", "pkg.C.__call__"]);
    assert!(matches!(c.methods[0].typ, FunctionType::Method { typ: MethodType::InstanceMethod, .. }));
    assert!(matches!(c.methods[1].typ, FunctionType::Method { typ: MethodType::Callable, .. }));
    assert_eq!(names(&c.properties, |p| &p.name), vec!["pkg.C.size"]);
    let size = &c.properties[0];
    assert!(!size.is_mutable);
    assert!(size.annotation == Type::PyLong);
    assert_eq!(size.docstring.as_deref(), Some("The size."));
    assert!(c.docstring.is_none());

    let code = c.generate(&Config::default(), &LocalTypes::new(), &vec![]);
    assert!(code.contains("pub trait CMethods {\nfn run<'py>(&'py self) -> "));
    assert!(code.contains("fn call<'py>(&'py self) -> "));
    assert!(code.contains("fn size<'py>(&'py self) -> ::pyo3::PyResult<i64>;\n"));
    assert!(!code.contains("set_size"));
}

#[test]
fn property_getter_and_setter_keep_their_own_types() {
    let facts = PropertyFacts {
        value_type: Annotation::Class { bases: vec![], text: "<class 'property'>".to_string() },
        getter: Some(AccessorFacts {
            doc: "None".to_string(),
            signature: signature(vec![param("self", None, false)], Some(Annotation::Text("int".to_string()))),
        }),
        setter: Some(AccessorFacts {
            doc: "Sets it.".to_string(),
            signature: signature(
                vec![param("self", None, false), param("value", Some(Annotation::Text("str".to_string())), false)],
                None,
            ),
        }),
    };
    let p = Property::parse(&Config::default(), &facts, Path::from_py("pkg.C.x"), PropertyOwner::Class);
    assert!(p.is_mutable);
    assert!(p.annotation == Type::PyLong);
    assert!(p.setter_annotation == Type::PyString);
    assert_eq!(p.docstring.as_deref(), Some("Sets it."));
    assert_eq!(p.setter_docstring.as_deref(), Some("Sets it."));
    let scope = vec![Ident::from_py("x")];
    let cfg = Config::default();
    let getter = p.generate_getter(&cfg, &scope, &LocalTypes::new(), &vec![]).unwrap();
    assert_eq!(getter.trait_fn, "fn get_x<'py>(&'py self) -> ::pyo3::PyResult<i64>;\n");
    let setter = p.generate_setter(&cfg, &scope, &LocalTypes::new(), &vec![]).unwrap();
    assert_eq!(setter.trait_fn, "fn set_x<'py>(&'py self, p_value: &str) -> ::pyo3::PyResult<()>;\n");
    let taken = vec![Ident::from_py("x"), Ident::from_py("get_x"), Ident::from_py("set_x")];
    let getter = p.generate_getter(&cfg, &taken, &LocalTypes::new(), &vec![]).unwrap();
    assert_eq!(getter.trait_fn, "");
    assert_eq!(getter.impl_fn, "");
    let setter = p.generate_setter(&cfg, &taken, &LocalTypes::new(), &vec![]).unwrap();
    assert_eq!(setter.impl_fn, "");

    let read_only = Property::parse(
        &cfg,
        &PropertyFacts { setter: None, ..facts },
        Path::from_py("pkg.C.x"),
        PropertyOwner::Class,
    );
    assert!(!read_only.is_mutable);
    assert!(read_only.setter_annotation == Type::Unknown);
    assert!(read_only.docstring.is_none());
    match read_only.generate(&cfg, &vec![], &LocalTypes::new(), &vec![]).unwrap() {
        pyo3_bindgen_engine::syntax::function_definition::FunctionImplementation::Method(m) => {
            assert_eq!(m.trait_fn, "fn x<'py>(&'py self) -> ::pyo3::PyResult<i64>;\n");
            assert!(!m.impl_fn.contains("setattr"));
        }
        _ => panic!("a property of a class is a method"),
    }
}

#[test]
fn module_prelude_follows_the_declared_names() {
    let mut facts = module(
        "pkg",
        vec![
            function("visible", "pkg", "", signature(vec![], None)),
            function("other", "pkg", "", signature(vec![], None)),
            function("_private", "pkg", "", signature(vec![], None)),
            function("foreign", "elsewhere", "", signature(vec![], None)),
        ],
    );
    facts.index = Some(vec![
        "visible".to_string(),
        "_private".to_string(),
        "foreign".to_string(),
        "missing".to_string(),
        "visible".to_string(),
    ]);
    let m = Module::parse(&Config::default(), &facts);
    let prelude: Vec<&str> = m.prelude.iter().map(|i| i.as_py()).collect();
    assert_eq!(prelude, vec!["visible", "foreign", "missing"]);
    let code = generate(&[facts]);
    assert!(code.contains("pub mod prelude {\npub use super::{visible, foreign, missing, };\n}\n"));

    let mut same = module(
        "pkg",
        vec![function("visible", "pkg", "", signature(vec![], None)), function("_private", "pkg", "", signature(vec![], None))],
    );
    same.index = Some(vec!["visible".to_string()]);
    let m = Module::parse(&Config::default(), &same);
    assert!(m.prelude.is_empty());
    assert!(!generate(&[same]).contains("pub use super::"));

    let mut with_dependencies = Config::default();
    with_dependencies.generate_dependencies = true;
    let mut facts = module(
        "pkg",
        vec![function("visible", "pkg", "", signature(vec![], None)), function("foreign", "elsewhere", "", signature(vec![], None))],
    );
    facts.index = Some(vec!["foreign".to_string()]);
    let m = Module::parse(&with_dependencies, &facts);
    let prelude: Vec<&str> = m.prelude.iter().map(|i| i.as_py()).collect();
    assert_eq!(prelude, vec!["foreign"]);
    let m = Module::parse(&Config::default(), &facts);
    let prelude: Vec<&str> = m.prelude.iter().map(|i| i.as_py()).collect();
    assert_eq!(prelude, vec!["foreign"]);

    let mut blocking = Config::default();
    blocking.blocklist_names = vec!["foreign".to_string()];
    facts.index = Some(vec!["foreign".to_string(), "visible".to_string(), "more".to_string()]);
    let m = Module::parse(&blocking, &facts);
    let prelude: Vec<&str> = m.prelude.iter().map(|i| i.as_py()).collect();
    assert_eq!(prelude, vec!["visible", "more"]);

    let mut off = Config::default();
    off.generate_preludes = false;
    assert!(Module::parse(&off, &facts).prelude.is_empty());
}

#[test]
fn module_attributes_are_sorted_by_kind() {
    let mut marker = value("T", "TypeVar", BuiltinClass::PyType);
    marker.traits.class_module = "typing".to_string();
    let mut partial = function("bound", "pkg", "", signature(vec![], None));
    partial.traits.is_function = false;
    partial.traits.class_module = "functools".to_string();
    partial.traits.class_name = "partial".to_string();
    let mut bound_method = function("method", "pkg", "", signature(vec![], None));
    bound_method.traits.is_function = false;
    bound_method.traits.is_method = true;
    let facts = module(
        "pkg",
        vec![
            value("answer", "int", BuiltinClass::PyLong),
            function("f", "pkg", "Does f.", signature(vec![], None)),
            class("C", "pkg", ClassFacts { doc: String::new(), members: vec![] }),
            marker,
            partial,
            bound_method,
            function("imported", "other.place", "", signature(vec![], None)),
            function("tests", "pkg", "", signature(vec![], None)),
            function("f", "pkg", "again", signature(vec![], None)),
        ],
    );
    let m = Module::parse(&Config::default(), &facts);
    assert_eq!(names(&m.properties, |p| &p.name), vec!["pkg.answer"]);
    assert_eq!(names(&m.functions, |f| &f.name), vec!["pkg.f", "pkg.bound"]);
    assert!(matches!(m.functions[0].typ, FunctionType::Function));
    assert!(matches!(m.functions[1].typ, FunctionType::Closure));
    assert_eq!(m.functions[0].docstring.as_deref(), Some("Does f."));
    assert_eq!(names(&m.classes, |c| &c.name), vec!["pkg.C"]);
    assert_eq!(names(&m.type_vars, |t| &t.name), vec!["pkg.T"]);
    assert_eq!(m.imports.len(), 1);
    assert_eq!(m.imports[0].origin.to_py(), "other.place.imported");
    assert_eq!(m.imports[0].target.to_py(), "pkg.imported");
    assert_eq!(m.imports[0].import_type, ImportType::ExternalImport);
    assert!(!m.is_package);
}

#[test]
fn module_imports_need_an_allowed_origin() {
    let facts = module(
        "pkg",
        vec![
            function("a", "pkg._impl", "", signature(vec![], None)),
            function("b", "pkg.tests", "", signature(vec![], None)),
            function("c", "pkg.sub", "", signature(vec![], None)),
        ],
    );
    let m = Module::parse(&Config::default(), &facts);
    assert_eq!(names(&m.imports, |i| &i.target), vec!["pkg.c"]);
    assert_eq!(m.imports[0].origin.to_py(), "pkg.sub.c");
    assert_eq!(m.imports[0].import_type, ImportType::SubmoduleReexport);
}

fn package() -> ModuleFacts {
    let mut sub = module("pkg.sub", vec![function("helper", "pkg.sub", "", signature(vec![], None))]);
    sub.doc = "The sub.".to_string();
    let shadowed = module(
        "pkg.shadow",
        vec![function("shadow", "pkg.shadow", "The real one.", signature(vec![], None))],
    );
    let mut root = module(
        "pkg",
        vec![
            submodule_attribute("extra"),
            function("shadow", "pkg.shadow", "", signature(vec![], None)),
            function("helper", "pkg.sub", "", signature(vec![], None)),
        ],
    );
    root.is_package = true;
    root.packaged = vec!["sub".to_string(), "shadow".to_string(), "_private".to_string(), "gone".to_string()];
    root.submodules = vec![
        SubmoduleFacts { name: "sub".to_string(), module: sub },
        SubmoduleFacts { name: "shadow".to_string(), module: shadowed },
        SubmoduleFacts { name: "extra".to_string(), module: module("pkg.extra", vec![]) },
        SubmoduleFacts { name: "_private".to_string(), module: module("pkg._private", vec![]) },
    ];
    root
}

#[test]
fn package_goes_into_its_submodules() {
    let m = Module::parse(&Config::default(), &package());
    assert!(m.is_package);
    assert_eq!(names(&m.submodules, |s| &s.name), vec!["pkg.sub", "pkg.extra"]);
    assert_eq!(m.submodules[0].docstring.as_deref(), Some("The sub."));
    assert_eq!(names(&m.submodules[0].functions, |f| &f.name), vec!["pkg.sub.helper"]);
    assert_eq!(names(&m.imports, |i| &i.target), vec!["pkg.helper"]);
    assert_eq!(names(&m.functions, |f| &f.name), vec!["pkg.shadow"]);
    assert_eq!(m.functions[0].docstring.as_deref(), Some("The real one."));

    let mut flat = Config::default();
    flat.traverse_submodules = false;
    let m = Module::parse(&flat, &package());
    assert!(m.submodules.is_empty());
    assert!(m.functions.is_empty());
    assert_eq!(names(&m.imports, |i| &i.target), vec!["pkg.helper"]);
}

#[test]
fn package_code_holds_the_reexports() {
    let code = generate(&[package()]);
    assert!(code.starts_with("#[allow("));
    assert_eq!(code.matches("#[allow(").count(), 1);
    assert!(code.contains("pub mod pkg {\npub use self::sub::helper;\n"));
    assert!(code.contains("#[doc = \" The sub.\"]\npub mod sub {\npub fn helper<'py>("));
    assert!(code.contains("pub mod extra {\n}\n"));
    let imports = code.find("pub use self::sub::helper").unwrap();
    let functions = code.find("pub fn shadow<'py>").unwrap();
    let submodules = code.find("pub mod sub {").unwrap();
    assert!(imports < functions && functions < submodules);
}

#[test]
fn generation_is_repeatable() {
    let first = generate(&[package(), module("other", vec![value("x", "int", BuiltinClass::PyLong)])]);
    let second = generate(&[package(), module("other", vec![value("x", "int", BuiltinClass::PyLong)])]);
    assert_eq!(first, second);
}

#[test]
fn submodule_found_as_an_attribute_from_elsewhere_is_no_import_of_itself() {
    let mut listed = submodule_attribute("extra");
    listed.module = String::new();
    let mut root = module("pkg", vec![listed]);
    root.is_package = true;
    root.submodules = vec![SubmoduleFacts { name: "extra".to_string(), module: module("pkg.extra", vec![]) }];
    let m = Module::parse(&Config::default(), &root);
    assert!(m.imports.is_empty());
    assert!(m.submodules.is_empty());
}

#[test]
fn engine_without_modules_fails() {
    match Codegen::new(Config::default()).generate(&vec![]) {
        Err(PyBindgenError::CodegenError(detail)) => {
            assert_eq!(detail, "There are no modules for which to generate bindings");
        }
        _ => panic!("an engine without modules cannot generate"),
    }
    let e = Codegen::new(Config::default()).generate(&vec![]).unwrap_err();
    assert_eq!(
        e.message(),
        "Failed to generate Rust code: There are no modules for which to generate bindings"
    );
}

#[test]
fn engine_rejects_items_without_a_place() {
    let mut m = Module::empty(Path::from_py("pkg"));
    m.functions.push(pyo3_bindgen_engine::syntax::function::Function {
        name: Path::from_py("f"),
        typ: FunctionType::Function,
        parameters: vec![],
        return_annotation: Type::Unknown,
        docstring: None,
    });
    assert!(!m.is_generatable());
    match Codegen::new(Config::default()).module(m).generate(&vec![]) {
        Err(PyBindgenError::CodegenError(detail)) => {
            assert_eq!(detail, "A module holds an item whose path does not name it");
        }
        _ => panic!("a function outside of a module cannot be generated"),
    }
    assert!(Module::empty(Path::from_py("pkg")).is_generatable());
    assert!(!Module::empty(Path::default()).is_generatable());
}

#[test]
fn what_cannot_be_named_is_left_out() {
    let cfg = Config::default();
    let code = Codegen::new(cfg.clone())
        .module(Module::empty(Path::from_py("self")))
        .module(Module::empty(Path::from_py("fine")))
        .generate(&vec![])
        .unwrap();
    assert!(!code.contains("self"));
    assert!(code.contains("pub mod fine {\n}\n"));

    let broken = ParameterFacts {
        name: "a b".to_string(),
        kind: ParameterKind::PositionalOrKeyword,
        annotation: None,
        has_default: false,
    };
    let mut marker = value("self", "TypeVar", BuiltinClass::PyType);
    marker.traits.class_module = "typing".to_string();
    let facts = module(
        "pkg",
        vec![
            function("bad", "pkg", "", signature(vec![broken], None)),
            function("good", "pkg", "", signature(vec![], None)),
            marker,
        ],
    );
    let m = Module::parse(&cfg, &facts);
    assert_eq!(m.functions.len(), 2);
    assert_eq!(m.type_vars.len(), 1);
    let code = Codegen::new(cfg).module(m).generate(&vec![]).unwrap();
    assert!(!code.contains("pub fn bad<"));
    assert!(code.contains("pub fn good<"));
    assert!(!code.contains("pub type"));
}

#[test]
fn deep_modules_are_put_below_their_ancestors() {
    let cfg = Config::default();
    let deep = Module::parse(&cfg, &module("a.b.c", vec![value("x", "int", BuiltinClass::PyLong)]));
    let sibling = Module::parse(&cfg, &module("a.b.d", vec![]));
    let top = Module::parse(&cfg, &module("a", vec![value("y", "int", BuiltinClass::PyLong)]));
    let mut engine = Codegen::new(cfg).modules(vec![deep, sibling, top]);
    engine.canonicalize();
    assert_eq!(names(&engine.modules, |m| &m.name), vec!["a"]);
    let a = &engine.modules[0];
    assert!(a.is_package);
    assert_eq!(names(&a.properties, |p| &p.name), vec!["a.y"]);
    assert_eq!(names(&a.submodules, |m| &m.name), vec!["a.b"]);
    let b = &a.submodules[0];
    assert!(b.properties.is_empty());
    assert_eq!(names(&b.submodules, |m| &m.name), vec!["a.b.c", "a.b.d"]);
    assert_eq!(names(&b.submodules[0].properties, |p| &p.name), vec!["a.b.c.x"]);
}

#[test]
fn modules_of_one_name_are_merged() {
    let cfg = Config::default();
    let parse = |attrs: Vec<AttributeFacts>| Module::parse(&cfg, &module("pkg", attrs));
    let a = parse(vec![value("x", "int", BuiltinClass::PyLong), function("f", "pkg", "", signature(vec![], None))]);
    let b = parse(vec![function("f", "pkg", "", signature(vec![], None)), function("g", "pkg", "", signature(vec![], None))]);
    let c = parse(vec![value("x", "int", BuiltinClass::PyLong), value("z", "int", BuiltinClass::PyLong)]);
    let merged = |list: Vec<Module>| {
        let mut engine = Codegen::new(Config::default()).modules(list);
        engine.canonicalize();
        engine.modules
    };
    let all = merged(vec![a.duplicate(), b.duplicate(), c.duplicate()]);
    assert_eq!(all.len(), 1);
    assert_eq!(names(&all[0].functions, |f| &f.name), vec!["pkg.f", "pkg.g"]);
    assert_eq!(names(&all[0].properties, |p| &p.name), vec!["pkg.x", "pkg.z"]);

    let ab = merged(vec![a.duplicate(), b.duplicate()]);
    let ab_c = merged(vec![ab[0].duplicate(), c.duplicate()]);
    let bc = merged(vec![b.duplicate(), c.duplicate()]);
    let a_bc = merged(vec![a.duplicate(), bc[0].duplicate()]);
    assert!(ab_c[0].is_same(&a_bc[0]));
    assert!(ab_c[0].is_same(&all[0]));
}

#[test]
fn all_types_and_dependencies_are_collected_once() {
    let cfg = Config::default();
    let mut marker = value("T", "TypeVar", BuiltinClass::PyType);
    marker.traits.class_module = "typing".to_string();
    let mut root = module(
        "pkg",
        vec![
            class("C", "pkg", ClassFacts { doc: String::new(), members: vec![] }),
            marker,
            function("far", "other.place", "", signature(vec![], None)),
        ],
    );
    root.is_package = true;
    root.packaged = vec!["sub".to_string()];
    root.submodules = vec![SubmoduleFacts {
        name: "sub".to_string(),
        module: module(
            "pkg.sub",
            vec![
                class("D", "pkg.sub", ClassFacts { doc: String::new(), members: vec![] }),
                function("far", "other.place", "", signature(vec![], None)),
            ],
        ),
    }];
    let m = Module::parse(&cfg, &root);
    let engine = Codegen::new(cfg).module(m.duplicate()).module(m);
    let types: Vec<String> = engine.get_all_types().iter().map(|p| p.to_py()).collect();
    assert_eq!(types, vec!["pkg.C", "pkg.T", "pkg.sub.D"]);
    let dependencies: Vec<String> = engine.dependencies().iter().map(|p| p.to_py()).collect();
    assert_eq!(dependencies, vec!["other.place.far"]);
}

#[test]
fn local_types_are_referred_to_by_relative_paths() {
    let cfg = Config::default();
    let uses = function(
        "make",
        "pkg.sub",
        "",
        signature(
            vec![param("c", Some(Annotation::Text("pkg.C".to_string())), false)],
            Some(Annotation::Text("pkg.sub.D".to_string())),
        ),
    );
    let mut root = module("pkg", vec![class("C", "pkg", ClassFacts { doc: String::new(), members: vec![] })]);
    root.is_package = true;
    root.packaged = vec!["sub".to_string()];
    root.submodules = vec![SubmoduleFacts {
        name: "sub".to_string(),
        module: module(
            "pkg.sub",
            vec![class("D", "pkg.sub", ClassFacts { doc: String::new(), members: vec![] }), uses],
        ),
    }];
    let m = Module::parse(&cfg, &root);
    let all_types = vec![Path::from_py("pkg.C"), Path::from_py("pkg.sub.D")];
    let local = m.submodules[0].local_types(&all_types);
    assert_eq!(local.get(&Path::from_py("pkg.C")).unwrap().to_rs(), "super::C");
    assert_eq!(local.get(&Path::from_py("pkg.sub.D")).unwrap().to_rs(), "D");
    assert!(local.get(&Path::from_py("pkg.E")).is_none());
    assert!(local.contains_key(&Path::from_py("pkg.C")));
    let code = Codegen::new(cfg).module(m).generate(&vec![]).unwrap();
    assert!(code.contains(
        "pub fn make<'py>(py: ::pyo3::marker::Python<'py>, p_c: &::pyo3::Bound<'py, super::C>) \
         -> ::pyo3::PyResult<::pyo3::Bound<'py, D>> {\n"
    ));
}

#[test]
fn module_scope_checks() {
    let cfg = Config::default();
    let m = Module::parse(&cfg, &package());
    assert!(m.check_path_exists_recursive(&Path::from_py("pkg.sub.helper"), false));
    assert!(m.check_path_exists_recursive(&Path::from_py("pkg.sub"), false));
    assert!(!m.check_path_exists_recursive(&Path::from_py("pkg.helper"), false));
    assert!(m.check_path_exists_recursive(&Path::from_py("pkg.helper"), true));
    assert!(!m.check_path_exists_recursive(&Path::from_py("pkg.nothing"), true));
    assert!(m.check_ident_exists_immediate(&Ident::from_py("sub"), false));
    assert!(m.check_ident_exists_immediate(&Ident::from_py("shadow"), false));
    assert!(!m.check_ident_exists_immediate(&Ident::from_py("helper"), false));
    assert!(m.check_ident_exists_immediate(&Ident::from_py("helper"), true));
    let names: Vec<String> = m.names(true).iter().map(|i| i.as_py().to_string()).collect();
    assert_eq!(names, vec!["helper", "sub", "extra", "shadow"]);
}

#[test]
fn submodules_that_were_looked_into_are_not_visited_again() {
    let cfg = Config::default();
    let root = package();
    let names = |list: Vec<Ident>| list.iter().map(|i| i.as_py().to_string()).collect::<Vec<_>>();
    assert_eq!(names(Module::names_to_process(&cfg, &root)), vec!["sub", "shadow", "gone", "extra"]);
    assert_eq!(
        names(Module::submodules_to_visit(&cfg, &root, &vec![])),
        vec!["sub", "shadow", "gone", "extra"]
    );
    let processed = vec![Path::from_py("pkg"), Path::from_py("pkg.sub"), Path::from_py("other.extra")];
    assert_eq!(names(Module::submodules_to_visit(&cfg, &root, &processed)), vec!["shadow", "gone", "extra"]);
    let mut flat = Config::default();
    flat.traverse_submodules = false;
    assert!(Module::submodules_to_visit(&flat, &root, &vec![]).is_empty());
}

#[test]
fn merging_keeps_the_first_docstring_and_either_package_mark() {
    let cfg = Config::default();
    let mut first = module("pkg", vec![]);
    first.doc = "First.".to_string();
    let mut second = module("pkg", vec![value("x", "int", BuiltinClass::PyLong)]);
    second.doc = "Second.".to_string();
    second.is_package = true;
    let merged = pyo3_bindgen_engine::canonical::merge(&Module::parse(&cfg, &first), &Module::parse(&cfg, &second));
    assert_eq!(merged.docstring.as_deref(), Some("First."));
    assert!(merged.is_package);
    assert_eq!(merged.properties.len(), 1);
    let list = pyo3_bindgen_engine::canonical::absorb_all(
        vec![],
        &vec![Module::parse(&cfg, &first), Module::empty(Path::from_py("other")), Module::parse(&cfg, &second)],
    );
    assert_eq!(names(&list, |m| &m.name), vec!["pkg", "other"]);
    assert_eq!(pyo3_bindgen_engine::canonical::find_module(&list, &Path::from_py("other")), Some(1));
    assert_eq!(pyo3_bindgen_engine::canonical::find_module(&list, &Path::from_py("none")), None);
    let deep = pyo3_bindgen_engine::canonical::embed(Module::empty(Path::from_py("a.b.c")));
    assert_eq!(deep.name.to_py(), "a");
    assert_eq!(deep.submodules[0].name.to_py(), "a.b");
    assert_eq!(deep.submodules[0].submodules[0].name.to_py(), "a.b.c");
    assert_eq!(pyo3_bindgen_engine::canonical::embed(Module::empty(Path::from_py("a"))).submodules.len(), 0);
}

#[test]
fn constructor_name_avoids_methods_and_properties() {
    let property = MemberFacts {
        name: "new".to_string(),
        module: String::new(),
        traits: traits("int", "builtins", "1"),
        function: None,
        property: Some(PropertyFacts {
            value_type: class_of(BuiltinClass::PyLong, "<class 'int'>"),
            getter: None,
            setter: None,
        }),
    };
    let facts = ClassFacts {
        doc: String::new(),
        members: vec![
            method("__init__", "", vec![param("self", None, false)], Binding::Plain),
            method("new1", "", vec![param("self", None, false)], Binding::Plain),
            property,
        ],
    };
    let c = Class::parse(&Config::default(), &facts, Path::from_py("pkg.C"));
    assert!(c.is_reachable());
    let code = c.generate(&Config::default(), &LocalTypes::new(), &vec![]);
    assert!(code.contains("pub fn new2<'py>(py: ::pyo3::marker::Python<'py>) -> ::pyo3::PyResult<::pyo3::Bound<'py, Self>>"));
    assert!(code.contains("fn new1<'py>(&'py self) -> "));
    assert!(code.contains("fn get_new<'py>(&'py self) -> ::pyo3::PyResult<i64>;\n"));
    assert!(!code.contains("set_new"));
}

#[test]
fn import_candidates_of_the_engine() {
    let cfg = Config::default();
    let mut sub = module(
        "pkg.a.b",
        vec![
            function("f", "pkg.a.b", "", signature(vec![], None)),
            class(
                "C",
                "pkg.a.b",
                ClassFacts {
                    doc: String::new(),
                    members: vec![
                        method("__init__", "", vec![param("self", None, false)], Binding::Plain),
                        method("run", "", vec![param("self", None, false)], Binding::Plain),
                    ],
                },
            ),
        ],
    );
    sub.doc = String::new();
    let engine = Codegen::new(cfg.clone())
        .module(Module::parse(&cfg, &sub))
        .module(Module::parse(&cfg, &module("top", vec![value("x", "int", BuiltinClass::PyLong)])));
    assert_eq!(engine.import_candidates(), vec!["pkg.a", "pkg.a.b"]);
    assert!(Codegen::new(cfg).import_candidates().is_empty());
    let code = engine.generate(&vec!["pkg.a".to_string(), "pkg.a.b".to_string()]).unwrap();
    assert!(code.contains("py.import(::pyo3::intern!(py, \"pkg.a\"))?.getattr(::pyo3::intern!(py, \"b\"))?.as_any(), ::pyo3::intern!(py, \"f\")"));
    assert!(code.contains("::pyo3::types::PyAnyMethods::call0(py.import(::pyo3::intern!(py, \"pkg.a.b\"))?.getattr(::pyo3::intern!(py, \"C\"))?.as_any())"));
}

#[test]
fn imported_types_are_known_under_the_name_of_the_import() {
    let cfg = Config::default();
    let mut reexported = class("D", "pkg.sub", ClassFacts { doc: String::new(), members: vec![] });
    reexported.name = "Short".to_string();
    let uses = function(
        "make",
        "pkg",
        "",
        signature(vec![], Some(Annotation::Text("Short".to_string()))),
    );
    let mut root = module("pkg", vec![reexported, uses]);
    root.is_package = true;
    root.packaged = vec!["sub".to_string()];
    root.submodules = vec![SubmoduleFacts {
        name: "sub".to_string(),
        module: module(
            "pkg.sub",
            vec![class("D", "pkg.sub", ClassFacts { doc: String::new(), members: vec![] })],
        ),
    }];
    let m = Module::parse(&cfg, &root);
    assert_eq!(m.imports.len(), 1);
    assert_eq!(m.imports[0].origin.to_py(), "pkg.sub.D");
    assert_eq!(m.imports[0].target.to_py(), "pkg.Short");
    let all_types = vec![Path::from_py("pkg.sub.D")];
    let local = m.local_types(&all_types);
    assert_eq!(local.entries.len(), 2);
    assert_eq!(local.get(&Path::from_py("pkg.sub.D")).unwrap().to_rs(), "sub::D");
    assert_eq!(local.get(&Path::from_py("Short")).unwrap().to_rs(), "sub::D");
    let code = Codegen::new(cfg).module(m).generate(&vec![]).unwrap();
    assert!(code.contains("pub use self::sub::D as Short;\n"));
    assert!(code.contains("-> ::pyo3::PyResult<::pyo3::Bound<'py, sub::D>> {\n"));
}

#[test]
fn generated_code_is_rust_source_text() {
    let cfg = Config::default();
    let kinds = [
        ParameterKind::PositionalOnly,
        ParameterKind::PositionalOrKeyword,
        ParameterKind::VarPositional,
        ParameterKind::KeywordOnly,
        ParameterKind::KeywordOnly,
        ParameterKind::VarKeyword,
    ];
    let annotations = ["int", "dict[str, int] | None", "", "list[str]", "Thing", ""];
    let many: Vec<ParameterFacts> = kinds
        .iter()
        .zip(annotations.iter())
        .enumerate()
        .map(|(i, (kind, annotation))| ParameterFacts {
            name: format!("p{i}"),
            kind: *kind,
            annotation: if annotation.is_empty() {
                None
            } else {
                Some(Annotation::Text(annotation.to_string()))
            },
            has_default: i % 2 == 1,
        })
        .collect();
    let with_self = |mut params: Vec<ParameterFacts>| {
        params.insert(0, param("self", None, false));
        params
    };
    let rebuild = || -> Vec<ParameterFacts> {
        many.iter()
            .map(|p| ParameterFacts {
                name: p.name.clone(),
                kind: p.kind,
                annotation: match &p.annotation {
                    Some(Annotation::Text(t)) => Some(Annotation::Text(t.clone())),
                    _ => None,
                },
                has_default: p.has_default,
            })
            .collect()
    };
    let property = MemberFacts {
        name: "size".to_string(),
        module: String::new(),
        traits: traits("property", "builtins", "<property object>"),
        function: None,
        property: Some(PropertyFacts {
            value_type: Annotation::Class { bases: vec![], text: "<class 'property'>".to_string() },
            getter: Some(AccessorFacts {
                doc: "The \"size\".\n\nIn `bytes`.".to_string(),
                signature: signature(vec![param("self", None, false)], Some(Annotation::Text("int".to_string()))),
            }),
            setter: Some(AccessorFacts {
                doc: "None".to_string(),
                signature: signature(
                    vec![param("self", None, false), param("v", Some(Annotation::Text("dict[float, int]".to_string())), false)],
                    None,
                ),
            }),
        }),
    };
    let thing = ClassFacts {
        doc: "A thing.\n    With lines.\n".to_string(),
        members: vec![
            method("__init__", "Makes it.", with_self(rebuild()), Binding::Plain),
            method("__call__", "", with_self(rebuild()), Binding::Plain),
            method("run", "", with_self(rebuild()), Binding::Plain),
            method("make", "", rebuild(), Binding::ClassMethod),
            method("fixed", "", vec![], Binding::StaticMethod),
            method("type", "", with_self(vec![]), Binding::Plain),
            property,
        ],
    };
    let mut marker = value("T", "TypeVar", BuiltinClass::PyType);
    marker.traits.class_module = "typing".to_string();
    let mut root = module(
        "pkg",
        vec![
            class("Thing", "pkg", thing),
            function("free", "pkg", "Free.", signature(rebuild(), Some(Annotation::Text("tuple[int, Thing]".to_string())))),
            function("match", "pkg", "", signature(vec![], None)),
            function("helper", "pkg.sub", "", signature(vec![], None)),
            value("answer", "int", BuiltinClass::PyLong),
            value("struct", "dict", BuiltinClass::PyDict),
            marker,
        ],
    );
    root.doc = "The package.".to_string();
    root.is_package = true;
    root.packaged = vec!["sub".to_string()];
    root.index = Some(vec!["free".to_string(), "Thing".to_string()]);
    root.submodules = vec![SubmoduleFacts {
        name: "sub".to_string(),
        module: module("pkg.sub", vec![function("helper", "pkg.sub", "", signature(vec![], None))]),
    }];
    let code = Codegen::new(cfg.clone())
        .module_from_facts(&root)
        .module_from_facts(&module("deep.er.mod", vec![value("x", "str", BuiltinClass::PyString)]))
        .generate(&vec![])
        .unwrap();
    let without_macros: String = code
        .lines()
        .filter(|line| !line.starts_with("::pyo3::pyobject_native_type"))
        .collect::<Vec<_>>()
        .join("\n");
    let file = syn::parse_file(&without_macros).unwrap_or_else(|e| panic!("{e}:\n{code}"));
    assert_eq!(file.items.len(), 2);
    let tokens: proc_macro2::TokenStream = code.parse().unwrap();
    assert!(!tokens.is_empty());
    assert!(code.contains("pub mod prelude {\npub use super::{free, Thing, };\n}\n"));
    assert!(code.contains("pub fn r#match<'py>("));
    assert!(code.contains("pub fn r#struct<'py>("));
    assert!(code.contains("pub fn set_struct<'py>("));
    assert!(code.contains("fn r#type<'py>(&'py self)"));
    assert!(code.contains("pub type T = ::pyo3::types::PyAny;\n"));
    assert!(code.contains("pub mod deep {\npub mod er {\npub mod r#mod {\n"));
}

#[test]
fn prelude_exports_every_listed_name() {
    let mut m = Module::empty(Path::from_py("pkg"));
    assert_eq!(m.generate_prelude(), "");
    m.prelude = vec![Ident::from_py("only_imported"), Ident::from_py("match"), Ident::from_py("b")];
    assert_eq!(
        m.generate_prelude(),
        "pub mod prelude {\npub use super::{only_imported, r#match, b, };\n}\n"
    );

    let facts = module("pkg", vec![function("prelude", "pkg", "", signature(vec![], None))]);
    let mut taken = Module::parse(&Config::default(), &facts);
    taken.prelude = vec![Ident::from_py("prelude")];
    assert_eq!(taken.generate_prelude(), "pub mod prelude1 {\npub use super::{prelude, };\n}\n");

    let mut unwritable = Module::empty(Path::from_py("pkg"));
    unwritable.prelude = vec![Ident::from_py("not-a-name"), Ident::from_py("kept")];
    assert_eq!(unwritable.generate_prelude(), "pub mod prelude {\npub use super::{kept, };\n}\n");
}

#[test]
fn functions_without_signature_are_passed_over() {
    let mut dark = function("dark", "pkg", "Cannot be inspected.", None);
    dark.own_name = Some("dark".to_string());
    let mut partial = function("bound", "pkg", "", None);
    partial.traits = traits("partial", "functools", "functools.partial(<function f>)");
    let facts = module(
        "pkg",
        vec![
            function("before", "pkg", "", signature(vec![], None)),
            dark,
            partial,
            value("x", "int", BuiltinClass::PyLong),
            class(
                "C",
                "pkg",
                ClassFacts {
                    doc: "None".to_string(),
                    members: vec![
                        method("seen", "", vec![param("self", None, false)], Binding::Plain),
                        MemberFacts {
                            function: Some(FunctionFacts {
                                doc: String::new(),
                                signature: None,
                                binding: Binding::Plain,
                            }),
                            ..method("unseen", "", vec![], Binding::Plain)
                        },
                        method("after", "", vec![param("self", None, false)], Binding::Plain),
                    ],
                },
            ),
            function("after", "pkg", "", signature(vec![], None)),
        ],
    );
    let m = Module::parse(&Config::default(), &facts);
    assert_eq!(names(&m.functions, |f| &f.name), vec!["pkg.before", "pkg.after"]);
    assert_eq!(names(&m.properties, |p| &p.name), vec!["pkg.x"]);
    assert_eq!(m.classes.len(), 1);
    assert_eq!(names(&m.classes[0].methods, |f| &f.name), vec!["pkg.C.seen", "pkg.C.after"]);
    let code = generate(&[facts]);
    assert!(code.contains("pub fn before<'py>("));
    assert!(code.contains("pub fn after<'py>("));
    assert!(!code.contains("dark"));
    assert!(!code.contains("unseen"));
}

#[test]
fn merged_module_keeps_the_docstring_that_there_is() {
    let mut documented = Module::empty(Path::from_py("pkg"));
    documented.docstring = Some("The package.".to_string());
    documented.is_package = false;
    let mut placeholder = Module::empty(Path::from_py("pkg"));
    placeholder.docstring = None;
    placeholder.is_package = true;
    let mut other = Module::empty(Path::from_py("pkg"));
    other.docstring = Some("Another text.".to_string());
    other.is_package = false;

    let one = pyo3_bindgen_engine::canonical::merge(&placeholder, &documented);
    let two = pyo3_bindgen_engine::canonical::merge(&documented, &placeholder);
    assert_eq!(one.docstring.as_deref(), Some("The package."));
    assert_eq!(two.docstring.as_deref(), Some("The package."));
    assert!(one.is_package && two.is_package);
    assert!(one == two);

    let first = pyo3_bindgen_engine::canonical::merge(&documented, &other);
    assert_eq!(first.docstring.as_deref(), Some("The package."));
    assert!(!first.is_package);
    let none = pyo3_bindgen_engine::canonical::merge(&placeholder, &placeholder);
    assert!(none.docstring.is_none());
}

#[test]
fn ancestor_requested_after_its_descendant_keeps_its_docstring() {
    let mut root = module("a", vec![]);
    root.doc = "The root.".to_string();
    root.is_package = true;
    let leaf = module("a.b", vec![function("f", "a.b", "", signature(vec![], None))]);
    let cfg = Config::default();
    let build = |facts: &[&ModuleFacts]| {
        let mut c = Codegen::new(cfg.clone());
        for f in facts {
            c = c.module_from_facts(f);
        }
        c.canonicalize();
        c
    };
    let leaf_first = build(&[&leaf, &root]);
    let root_first = build(&[&root, &leaf]);
    assert_eq!(leaf_first.modules.len(), 1);
    assert_eq!(leaf_first.modules[0].docstring.as_deref(), Some("The root."));
    assert_eq!(root_first.modules[0].docstring.as_deref(), Some("The root."));
    assert!(leaf_first.modules[0] == root_first.modules[0]);
}

fn outline(m: &Module) -> String {
    let sorted = |mut v: Vec<String>| {
        v.sort();
        v.join(",")
    };
    format!(
        "{}(package={} prelude=[{}] imports=[{}] classes=[{}] type_vars=[{}] functions=[{}] properties=[{}] submodules=[{}])",
        m.name.to_py(),
        m.is_package,
        sorted(m.prelude.iter().map(|i| i.as_py().to_string()).collect()),
        sorted(m.imports.iter().map(|i| format!("{}->{}", i.origin.to_py(), i.target.to_py())).collect()),
        sorted(m.classes.iter().map(|c| c.name.to_py()).collect()),
        sorted(m.type_vars.iter().map(|t| t.name.to_py()).collect()),
        sorted(m.functions.iter().map(|f| f.name.to_py()).collect()),
        sorted(m.properties.iter().map(|p| p.name.to_py()).collect()),
        sorted(m.submodules.iter().map(outline).collect()),
    )
}

#[test]
fn canonical_forest_does_not_depend_on_the_order_of_requests() {
    let cfg = Config::default();
    let function_of = |module: &str, name: &str| function(name, module, "", signature(vec![], None));
    let a = module("pkg.sub.deep", vec![function_of("pkg.sub.deep", "a"), value("x", "int", BuiltinClass::PyLong)]);
    let b = module("pkg.sub", vec![function_of("pkg.sub", "b"), function_of("pkg.sub", "shared")]);
    let mut c = module("pkg", vec![function_of("pkg", "c")]);
    c.is_package = true;
    let d = module("pkg.sub", vec![function_of("pkg.sub", "shared"), function_of("pkg.sub", "d")]);
    let e = module("pkg.other.deep", vec![value("y", "int", BuiltinClass::PyLong)]);
    let requests = [&a, &b, &c, &d, &e];
    let forest_of = |order: &[usize]| {
        let mut engine = Codegen::new(cfg.clone());
        for &i in order {
            engine = engine.module_from_facts(requests[i]);
        }
        engine.canonicalize();
        let mut trees: Vec<String> = engine.modules.iter().map(outline).collect();
        trees.sort();
        trees
    };
    let expected = forest_of(&[0, 1, 2, 3, 4]);
    assert_eq!(expected.len(), 1);
    assert!(expected[0].contains("functions=[pkg.sub.b,pkg.sub.d,pkg.sub.shared]"));
    assert!(expected[0].contains("pkg.other.deep(package=false"));
    let mut order = [0usize, 1, 2, 3, 4];
    let mut seen = 0;
    for first in 0..5 {
        for second in 0..5 {
            for third in 0..5 {
                order.swap(0, first);
                order.swap(1, second);
                order.swap(2, third);
                assert_eq!(forest_of(&order), expected, "{order:?}");
                seen += 1;
            }
        }
    }
    assert_eq!(seen, 125);
}
