use pyo3_bindgen_engine::config::Config;
use pyo3_bindgen_engine::ident::Ident;
use pyo3_bindgen_engine::path::Path;
use pyo3_bindgen_engine::syntax::function::{
    Binding, Function, FunctionFacts, FunctionType, MethodType, ParameterFacts, ParameterKind,
    SignatureFacts,
};
use pyo3_bindgen_engine::syntax::function_definition::FunctionImplementation;
use pyo3_bindgen_engine::typing::annotation::{Annotation, BuiltinClass};
use pyo3_bindgen_engine::typing::local_types::LocalTypes;
use pyo3_bindgen_engine::typing::Type;

fn text(s: &str) -> Option<Annotation> {
    Some(Annotation::Text(s.to_string()))
}

fn param(name: &str, kind: ParameterKind, annotation: Option<Annotation>, has_default: bool) -> ParameterFacts {
    ParameterFacts { name: name.to_string(), kind, annotation, has_default }
}

fn facts(doc: &str, parameters: Vec<ParameterFacts>, ret: Option<Annotation>, binding: Binding) -> FunctionFacts {
    FunctionFacts {
        doc: doc.to_string(),
        signature: Some(SignatureFacts { parameters, return_annotation: ret }),
        binding,
    }
}

fn method(class: &str, typ: MethodType) -> FunctionType {
    FunctionType::Method { class_path: Path::from_py(class), typ }
}

fn names(f: &Function) -> Vec<String> {
    f.parameters.iter().map(|p| p.name.as_rs().to_string()).collect()
}

fn is_method_of(f: &Function, expected: MethodType) -> bool {
    match &f.typ {
        FunctionType::Method { typ, .. } => *typ == expected,
        _ => false,
    }
}

const POS: ParameterKind = ParameterKind::PositionalOrKeyword;

#[test]
fn parameter_kind_codes() {
    assert_eq!(ParameterKind::from_code(0), Some(ParameterKind::PositionalOnly));
    assert_eq!(ParameterKind::from_code(1), Some(ParameterKind::PositionalOrKeyword));
    assert_eq!(ParameterKind::from_code(2), Some(ParameterKind::VarPositional));
    assert_eq!(ParameterKind::from_code(3), Some(ParameterKind::KeywordOnly));
    assert_eq!(ParameterKind::from_code(4), Some(ParameterKind::VarKeyword));
    assert_eq!(ParameterKind::from_code(5), None);
    assert!(ParameterKind::PositionalOnly.is_positional());
    assert!(!ParameterKind::KeywordOnly.is_positional());
}

fn read(cfg: &Config, facts: &FunctionFacts, name: Path, typ: FunctionType) -> Function {
    Function::parse(cfg, facts, name, typ).expect("the facts hold a signature")
}

#[test]
fn function_without_signature_is_passed_over() {
    let unknown = FunctionFacts { doc: "Does it.".to_string(), signature: None, binding: Binding::Missing };
    assert!(Function::parse(&Config::default(), &unknown, Path::from_py("pkg.f"), FunctionType::Function)
        .is_none());
    assert!(Function::parse(&Config::default(), &unknown, Path::from_py("pkg.f"), FunctionType::Closure)
        .is_none());
    assert!(Function::parse(
        &Config::default(),
        &unknown,
        Path::from_py("pkg.C.m"),
        method("pkg.C", MethodType::Unknown)
    )
    .is_none());

    let known = FunctionFacts {
        doc: "Does it.".to_string(),
        signature: Some(SignatureFacts { parameters: vec![], return_annotation: None }),
        binding: Binding::Missing,
    };
    let f = Function::parse(&Config::default(), &known, Path::from_py("pkg.f"), FunctionType::Function)
        .expect("a function with a signature is read");
    assert!(f.parameters.is_empty());
    assert!(f.return_annotation == Type::Unknown);
    assert_eq!(f.docstring.as_deref(), Some("Does it."));
}

#[test]
fn parameters_that_take_any_arguments() {
    let f = read(
        &Config::default(),
        &facts(
            "None",
            vec![param("a", POS, None, false), param("self", POS, None, false)],
            None,
            Binding::Missing,
        ),
        Path::from_py("pkg.f"),
        FunctionType::Function,
    );
    assert_eq!(names(&f), vec!["args", "kwargs"]);
    assert_eq!(f.parameters[0].kind, ParameterKind::VarPositional);
    assert_eq!(f.parameters[1].kind, ParameterKind::VarKeyword);
    assert!(f.parameters[0].annotation == Type::PyTuple(vec![Type::Unknown]));
    assert!(
        f.parameters[1].annotation
            == Type::Optional(Box::new(Type::PyDict {
                key_type: Box::new(Type::Unknown),
                value_type: Box::new(Type::Unknown)
            }))
    );
    assert!(f.return_annotation == Type::Unknown);
    assert!(f.docstring.is_none());
}

#[test]
fn function_parameters_are_read_from_the_signature() {
    let f = read(
        &Config::default(),
        &facts(
            "Adds.",
            vec![
                param("a", POS, text("int"), false),
                param("_", POS, None, false),
                param("type", ParameterKind::KeywordOnly, text("str | None"), true),
                param("rest", ParameterKind::VarPositional, text("int"), false),
            ],
            text("list[int]"),
            Binding::Missing,
        ),
        Path::from_py("pkg.add"),
        FunctionType::Function,
    );
    assert_eq!(names(&f), vec!["a", "r#type", "rest"]);
    assert!(f.parameters[0].annotation == Type::PyLong);
    assert!(f.parameters[1].annotation == Type::Optional(Box::new(Type::PyString)));
    assert!(f.parameters[1].has_default);
    assert!(f.parameters[2].annotation == Type::PyTuple(vec![Type::Unknown]));
    assert!(f.return_annotation == Type::PyList(Box::new(Type::PyLong)));
    assert_eq!(f.docstring.as_deref(), Some("Adds."));
    assert!(matches!(f.typ, FunctionType::Function));
}

#[test]
fn constructor_takes_the_parameters_behind_self() {
    let f = read(
        &Config::default(),
        &facts(
            "Makes a thing.",
            vec![
                param("self", POS, None, false),
                param("a", POS, text("str"), false),
                param(
                    "b",
                    POS,
                    Some(Annotation::Typing {
                        origin: Some(Box::new(Annotation::Typing {
                            origin: None,
                            args: None,
                            text: "typing.Union".to_string(),
                        })),
                        args: Some(vec![
                            Annotation::Class {
                                bases: vec![BuiltinClass::PyLong],
                                text: "<class 'int'>".to_string(),
                            },
                            Annotation::Class { bases: vec![], text: "<class 'NoneType'>".to_string() },
                        ]),
                        text: "typing.Optional[int]".to_string(),
                    }),
                    true,
                ),
            ],
            None,
            Binding::Plain,
        ),
        Path::from_py("pkg.Thing.__init__"),
        method("pkg.Thing", MethodType::Constructor),
    );
    assert!(is_method_of(&f, MethodType::Constructor));
    assert_eq!(names(&f), vec!["a", "b"]);
    assert!(f.parameters[0].annotation == Type::PyString);
    assert!(f.parameters[1].annotation == Type::Optional(Box::new(Type::PyLong)));
    assert_eq!(f.docstring.as_deref(), Some("Makes a thing."));
}

#[test]
fn method_kind_is_told_by_the_class_and_by_self() {
    let cfg = Config::default();
    let parse = |params: Vec<ParameterFacts>, binding: Binding, typ: MethodType| {
        read(
            &cfg,
            &facts("", params, None, binding),
            Path::from_py("pkg.C.m"),
            method("pkg.C", typ),
        )
    };
    let with_self = || vec![param("self", POS, None, false), param("x", POS, None, false)];
    let without_self = || vec![param("x", POS, None, false)];

    let f = parse(with_self(), Binding::Plain, MethodType::Unknown);
    assert!(is_method_of(&f, MethodType::InstanceMethod));
    assert_eq!(names(&f), vec!["x"]);

    let f = parse(without_self(), Binding::ClassMethod, MethodType::Unknown);
    assert!(is_method_of(&f, MethodType::ClassMethod));
    assert_eq!(names(&f), vec!["x"]);

    let f = parse(without_self(), Binding::StaticMethod, MethodType::Unknown);
    assert!(is_method_of(&f, MethodType::StaticMethod));

    let f = parse(without_self(), Binding::Missing, MethodType::Unknown);
    assert!(is_method_of(&f, MethodType::StaticMethod));

    let f = parse(with_self(), Binding::Missing, MethodType::Unknown);
    assert!(is_method_of(&f, MethodType::InstanceMethod));
    assert_eq!(names(&f), vec!["x"]);

    let f = parse(with_self(), Binding::StaticMethod, MethodType::StaticMethod);
    assert!(is_method_of(&f, MethodType::InstanceMethod));

    let f = parse(without_self(), Binding::Plain, MethodType::Unknown);
    assert!(is_method_of(&f, MethodType::InstanceMethod));
    assert!(names(&f).is_empty());
}

#[test]
fn instance_method_without_parameters_becomes_static() {
    let f = read(
        &Config::default(),
        &facts("", vec![], None, Binding::Plain),
        Path::from_py("pkg.C.m"),
        method("pkg.C", MethodType::Unknown),
    );
    assert!(is_method_of(&f, MethodType::StaticMethod));
    match &f.typ {
        FunctionType::Method { class_path, .. } => assert_eq!(class_path.to_py(), "pkg.C.m"),
        _ => panic!("a method stays a method"),
    }
    assert!(names(&f).is_empty());
}

#[test]
fn self_outside_of_a_method() {
    let cfg = Config::default();
    let f = read(
        &cfg,
        &facts(
            "",
            vec![param("self", POS, text("int"), false), param("x", POS, None, false)],
            None,
            Binding::Missing,
        ),
        Path::from_py("pkg.f"),
        FunctionType::Function,
    );
    assert_eq!(names(&f), vec!["__unknown_self__", "x"]);
    assert!(f.parameters[0].annotation == Type::Unknown);

    let f = read(
        &cfg,
        &facts(
            "",
            vec![param("self", ParameterKind::KeywordOnly, None, false), param("x", POS, None, false)],
            None,
            Binding::Missing,
        ),
        Path::from_py("pkg.f"),
        FunctionType::Closure,
    );
    assert_eq!(names(&f), vec!["args", "kwargs"]);

    let f = read(
        &cfg,
        &facts(
            "",
            vec![param("a", POS, None, false), param("self", POS, None, false)],
            None,
            Binding::Missing,
        ),
        Path::from_py("pkg.f"),
        FunctionType::Function,
    );
    assert_eq!(names(&f), vec!["args", "kwargs"]);
}

fn generate(f: &Function, scope: &[&str]) -> FunctionImplementation {
    let scope: Vec<Ident> = scope.iter().map(|s| Ident::from_py(s)).collect();
    f.generate(&Config::default(), &scope, &LocalTypes::new(), &vec![]).unwrap()
}

fn simple(name: &str, typ: FunctionType, params: Vec<ParameterFacts>, ret: Option<Annotation>) -> Function {
    read(&Config::default(), &facts("None", params, ret, Binding::Plain), Path::from_py(name), typ)
}

#[test]
fn generated_function_without_parameters() {
    let f = simple("pkg.mod.answer", FunctionType::Function, vec![], text("int"));
    match generate(&f, &[]) {
        FunctionImplementation::Function(code) => assert_eq!(
            code,
            "pub fn answer<'py>(py: ::pyo3::marker::Python<'py>) -> ::pyo3::PyResult<i64> {\n\
             ::pyo3::types::PyAnyMethods::extract(&::pyo3::types::PyAnyMethods::call_method0(\
             py.import(::pyo3::intern!(py, \"pkg\"))?.getattr(::pyo3::intern!(py, \"mod\"))?.as_any(), \
             ::pyo3::intern!(py, \"answer\"))?)\n}\n"
        ),
        _ => panic!("a function of a module is a free function"),
    }
}

#[test]
fn generated_function_imports_the_innermost_module() {
    let f = simple("pkg.sub.mod.answer", FunctionType::Function, vec![], text("int"));
    let code = match f
        .generate(&Config::default(), &vec![], &LocalTypes::new(), &vec!["pkg.sub".to_string()])
        .unwrap()
    {
        FunctionImplementation::Function(code) => code,
        _ => panic!("a function of a module is a free function"),
    };
    assert!(code.contains(
        "py.import(::pyo3::intern!(py, \"pkg.sub\"))?.getattr(::pyo3::intern!(py, \"mod\"))?.as_any()"
    ));
    assert_eq!(Path::from_py("a.b.c.d").import_candidates(), vec!["a.b.c", "a.b"]);
    assert_eq!(
        Path::from_py("a.b.c").import_quote(&vec!["a.b".to_string(), "a.b.c".to_string()]),
        "py.import(::pyo3::intern!(py, \"a.b\"))?.getattr(::pyo3::intern!(py, \"c\"))?"
    );
    assert_eq!(Path::from_py("a").import_quote(&vec![]), "py.import(::pyo3::intern!(py, \"a\"))?");
}

#[test]
fn generated_function_with_arguments() {
    let f = simple(
        "pkg.f",
        FunctionType::Function,
        vec![
            param("a", POS, text("str"), false),
            param("b", POS, text("int"), true),
            param("k", ParameterKind::KeywordOnly, text("bool"), true),
        ],
        None,
    );
    let code = match generate(&f, &[]) {
        FunctionImplementation::Function(code) => code,
        _ => panic!("a function of a module is a free function"),
    };
    assert!(code.starts_with(
        "pub fn f<'py>(py: ::pyo3::marker::Python<'py>, p_a: &str, p_b: Option<i64>, p_k: Option<bool>) \
         -> ::pyo3::PyResult<::pyo3::Bound<'py, ::pyo3::types::PyAny>> {\n"
    ));
    assert!(code.contains("let optional_p_b = p_b.is_some();\nlet optional_p_k = p_k.is_some();\n"));
    assert!(code.contains(
        "::pyo3::types::PyTuple::new_bound(py, [::pyo3::ToPyObject::to_object(&p_a, py), \
         ::pyo3::ToPyObject::to_object(&p_b, py), ])"
    ));
    assert!(code.contains(
        "Some(&{ let __internal__kwargs = ::pyo3::types::PyDict::new_bound(py); if optional_p_k { \
         ::pyo3::types::PyDictMethods::set_item(&__internal__kwargs, ::pyo3::intern!(py, \"k\"), p_k); }; \
         __internal__kwargs })"
    ));
    assert!(code.contains("::pyo3::types::PyAnyMethods::call_method(py.import("));
}

#[test]
fn generated_method_is_declared_and_implemented() {
    let f = simple(
        "pkg.C.m",
        method("pkg.C", MethodType::Unknown),
        vec![param("self", POS, None, false), param("x", POS, text("float"), false)],
        text("str"),
    );
    match generate(&f, &["m"]) {
        FunctionImplementation::Method(m) => {
            assert_eq!(
                m.trait_fn,
                "fn m<'py>(&'py self, p_x: f64) -> ::pyo3::PyResult<::std::string::String>;\n"
            );
            assert_eq!(
                m.impl_fn,
                "fn m<'py>(&'py self, p_x: f64) -> ::pyo3::PyResult<::std::string::String> {\n\
                 let py = self.py();\n\
                 ::pyo3::types::PyAnyMethods::extract(&::pyo3::types::PyAnyMethods::call_method1(\
                 self.as_any(), ::pyo3::intern!(py, \"m\"), ::pyo3::types::PyTuple::new_bound(py, \
                 [::pyo3::ToPyObject::to_object(&p_x, py), ]))?)\n}\n"
            );
        }
        _ => panic!("an instance method is a method"),
    }
}

#[test]
fn generated_constructor_gets_a_free_name() {
    let f = simple(
        "pkg.C.__init__",
        method("pkg.C", MethodType::Constructor),
        vec![param("self", POS, None, false)],
        None,
    );
    let head = |scope: &[&str]| match generate(&f, scope) {
        FunctionImplementation::Function(code) => code.lines().next().unwrap().to_string(),
        _ => panic!("a constructor is a function of the class"),
    };
    assert_eq!(
        head(&["__init__"]),
        "pub fn new<'py>(py: ::pyo3::marker::Python<'py>) -> ::pyo3::PyResult<::pyo3::Bound<'py, Self>> {"
    );
    assert!(head(&["new"]).starts_with("pub fn new1<'py>("));
    assert!(head(&["new", "new1"]).starts_with("pub fn new2<'py>("));
    assert!(head(&["new", "new2"]).starts_with("pub fn new1<'py>("));
    let code = match generate(&f, &[]) {
        FunctionImplementation::Function(code) => code,
        _ => panic!("a constructor is a function of the class"),
    };
    assert!(code.contains(
        "::pyo3::types::PyAnyMethods::call0(py.import(::pyo3::intern!(py, \"pkg\"))?\
         .getattr(::pyo3::intern!(py, \"C\"))?.as_any())"
    ));
}

#[test]
fn generated_call_operator_gets_a_free_name() {
    let f = simple(
        "pkg.C.__call__",
        method("pkg.C", MethodType::Callable),
        vec![param("self", POS, None, false), param("args", ParameterKind::VarPositional, None, false)],
        None,
    );
    match generate(&f, &["call", "call1"]) {
        FunctionImplementation::Method(m) => {
            assert!(m.trait_fn.starts_with("fn call2<'py>(&'py self, p_args: impl ::pyo3::IntoPy<"));
            assert!(m.impl_fn.contains("::pyo3::types::PyAnyMethods::call1(self.as_any(), p_args)"));
            assert!(m.impl_fn.contains("let p_args = ::pyo3::IntoPy::<::pyo3::Py<::pyo3::types::PyTuple>>::into_py(p_args, py); let p_args = p_args.bind(py);\n"));
        }
        _ => panic!("a call operator is a method"),
    }
}

#[test]
fn nothing_is_generated_for_names_that_cannot_stand() {
    let f = simple("pkg.repr", FunctionType::Function, vec![], None);
    match generate(&f, &[]) {
        FunctionImplementation::Function(code) => assert_eq!(code, ""),
        _ => panic!("a function stays a function"),
    }
    let f = simple("pkg.self", FunctionType::Function, vec![], None);
    match generate(&f, &[]) {
        FunctionImplementation::Function(code) => assert!(code.starts_with("pub fn f_self<'py>(")),
        _ => panic!("a function stays a function"),
    }
    let f = Function {
        name: Path::from_py("pkg.C.m"),
        typ: method("pkg.C", MethodType::Unknown),
        parameters: vec![],
        return_annotation: Type::Unknown,
        docstring: None,
    };
    match generate(&f, &[]) {
        FunctionImplementation::Method(m) => {
            assert_eq!(m.trait_fn, "");
            assert_eq!(m.impl_fn, "");
        }
        _ => panic!("a method stays a method"),
    }
}

#[test]
fn generated_function_is_documented() {
    let f = read(
        &Config::default(),
        &facts("  Says \"hi\".  \n", vec![], None, Binding::Missing),
        Path::from_py("pkg.hi"),
        FunctionType::Function,
    );
    let code = match generate(&f, &[]) {
        FunctionImplementation::Function(code) => code,
        _ => panic!("a function of a module is a free function"),
    };
    assert!(code.starts_with("#[doc = \" Says \\\"hi\\\".\"]\npub fn hi<'py>("));
    let mut quiet = Config::default();
    quiet.generate_docs = false;
    match f.generate(&quiet, &vec![], &LocalTypes::new(), &vec![]).unwrap() {
        FunctionImplementation::Function(code) => assert!(code.starts_with("pub fn hi<'py>(")),
        _ => panic!("a function of a module is a free function"),
    }
}

#[test]
fn generation_fails_on_a_parameter_that_is_no_identifier() {
    let f = simple("pkg.f", FunctionType::Function, vec![param("a b", POS, None, false)], None);
    let r = f.generate(&Config::default(), &vec![], &LocalTypes::new(), &vec![]);
    assert!(r.is_err());
}
