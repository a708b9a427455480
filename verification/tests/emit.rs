use pyo3_bindgen_engine::config::Config;
use pyo3_bindgen_engine::emit::{doc_attribute_of, keep_docstring, string_literal};
use pyo3_bindgen_engine::ident::Ident;
use pyo3_bindgen_engine::naming::{candidate_name, fresh_name, is_taken, push_decimal};
use pyo3_bindgen_engine::path::Path;
use pyo3_bindgen_engine::syntax::function_generate::{sanitize, substitute_for};
use pyo3_bindgen_engine::text::{
    chars_of, compare_texts, count_in, has_text, join_strings, split_nonempty, str_eq, string_of,
    trimmed,
};
use pyo3_bindgen_engine::typing::annotation::{Annotation, BuiltinClass};
use pyo3_bindgen_engine::typing::local_types::LocalTypes;
use pyo3_bindgen_engine::typing::Type;
use std::cmp::Ordering;

fn b(t: Type) -> Box<Type> {
    Box::new(t)
}

fn other(name: &str) -> Type {
    Type::Other(name.to_string())
}

fn local(entries: &[(&str, &str)]) -> LocalTypes {
    let mut types = LocalTypes::new();
    for (key, reference) in entries {
        types.insert(Path::from_py(key), Path::from_rs(reference));
    }
    types
}

#[test]
fn string_literals_are_escaped() {
    assert_eq!(string_literal("plain"), "\"plain\"");
    assert_eq!(string_literal(""), "\"\"");
    assert_eq!(string_literal("say \"hi\""), "\"say \\\"hi\\\"\"");
    assert_eq!(string_literal("a\\b"), "\"a\\\\b\"");
    assert_eq!(string_literal("line\nnext\r\tend"), "\"line\\nnext\\r\\tend\"");
    assert_eq!(string_literal("nul\0"), "\"nul\\0\"");
    assert_eq!(string_literal("it's ünïcode"), "\"it's ünïcode\"");
    let literal: syn::LitStr = syn::parse_str(&string_literal("a \"b\" \\ c\n")).unwrap();
    assert_eq!(literal.value(), "a \"b\" \\ c\n");
}

#[test]
fn docstrings_that_say_nothing_are_dropped() {
    assert_eq!(keep_docstring(""), None);
    assert_eq!(keep_docstring("None"), None);
    assert_eq!(keep_docstring("none").as_deref(), Some("none"));
    assert_eq!(keep_docstring(" ").as_deref(), Some(" "));
    let cfg = Config::default();
    assert_eq!(doc_attribute_of(&cfg, &None), "");
    assert_eq!(doc_attribute_of(&cfg, &Some("Text.".to_string())), "#[doc = \" Text.\"]\n");
    let mut quiet = Config::default();
    quiet.generate_docs = false;
    assert_eq!(doc_attribute_of(&quiet, &Some("Text.".to_string())), "");
}

#[test]
fn names_are_sanitized() {
    assert_eq!(sanitize("a-b.c d"), "a_b_c_d");
    assert_eq!(sanitize("äö9_"), "äö9_");
    assert_eq!(sanitize(""), "");
    assert_eq!(substitute_for("f_", &Ident::from_py("a-b")).as_rs(), "f_a_b");
    assert_eq!(substitute_for("s_", &Ident::from_py("self")).as_rs(), "s_self");
}

#[test]
fn fresh_names_take_the_smallest_free_number() {
    let scope = |names: &[&str]| names.iter().map(|n| Ident::from_py(n)).collect::<Vec<_>>();
    assert_eq!(fresh_name("new", &scope(&[])).as_rs(), "new");
    assert_eq!(fresh_name("new", &scope(&["other"])).as_rs(), "new");
    assert_eq!(fresh_name("new", &scope(&["new"])).as_rs(), "new1");
    assert_eq!(fresh_name("new", &scope(&["new", "new1"])).as_rs(), "new2");
    assert_eq!(fresh_name("new", &scope(&["new1", "new"])).as_rs(), "new2");
    assert_eq!(fresh_name("new", &scope(&["new", "new2"])).as_rs(), "new1");
    assert_eq!(fresh_name("type", &scope(&["type"])).as_rs(), "type1");
    assert_eq!(fresh_name("type", &scope(&[])).as_rs(), "r#type");
    assert_eq!(fresh_name("py", &scope(&[])).as_rs(), "py1");
    let many: Vec<String> =
        (0..12).map(|i| if i == 0 { "call".to_string() } else { format!("call{i}") }).collect();
    let many: Vec<Ident> = many.iter().map(|n| Ident::from_py(n)).collect();
    assert_eq!(fresh_name("call", &many).as_rs(), "call12");
    assert_eq!(candidate_name("new", 0).as_rs(), "new");
    assert_eq!(candidate_name("new", 10).as_rs(), "new10");
    assert!(is_taken(&scope(&["a"]), &Ident::from_py("a")));
    assert!(is_taken(&scope(&[]), &Ident::from_py("repr")));
    assert!(!is_taken(&scope(&["a"]), &Ident::from_py("b")));
}

#[test]
fn decimal_numerals() {
    let numeral = |n: usize| {
        let mut s = String::from("n");
        push_decimal(&mut s, n);
        s
    };
    assert_eq!(numeral(0), "n0");
    assert_eq!(numeral(7), "n7");
    assert_eq!(numeral(10), "n10");
    assert_eq!(numeral(1234567890), "n1234567890");
    assert_eq!(numeral(usize::MAX), format!("n{}", usize::MAX));
}

#[test]
fn text_helpers() {
    assert_eq!(string_of(&chars_of("añb")), "añb");
    assert_eq!(chars_of("añb").len(), 3);
    assert!(str_eq("abc", "abc"));
    assert!(!str_eq("abc", "abd"));
    assert!(!str_eq("abc", "ab"));
    assert!(has_text("a<locals>b", "<locals>"));
    assert!(has_text("abc", ""));
    assert!(has_text("abc", "c"));
    assert!(!has_text("abc", "cd"));
    assert_eq!(string_of(&trimmed(&chars_of(" \t a b \u{3000}\n"))), "a b");
    assert_eq!(string_of(&trimmed(&chars_of("   "))), "");
    assert_eq!(count_in(&chars_of("[[a]]]"), ']'), 3);
    assert_eq!(split_nonempty(&chars_of("a::b::::c"), "::"), vec!["a", "b", "c"]);
    assert_eq!(split_nonempty(&chars_of("abc"), ""), vec!["abc"]);
    assert_eq!(join_strings(&vec!["a".to_string(), "".to_string(), "b".to_string()], "--"), "a----b");
    assert_eq!(join_strings(&vec![], ","), "");
}

#[test]
fn texts_are_ordered_as_in_the_dictionary() {
    assert_eq!(compare_texts("a", "b"), -1);
    assert_eq!(compare_texts("b", "a"), 1);
    assert_eq!(compare_texts("abc", "abc"), 0);
    assert_eq!(compare_texts("ab", "abc"), -1);
    assert_eq!(compare_texts("abc", "ab"), 1);
    assert_eq!(compare_texts("", ""), 0);
    assert_eq!(compare_texts("Z", "a"), -1);
    for (x, y) in [("a", "b"), ("é", "z"), ("ab", "a"), ("", "a"), ("same", "same"), ("β", "ü")] {
        let expected = match x.cmp(y) {
            Ordering::Less => -1,
            Ordering::Equal => 0,
            Ordering::Greater => 1,
        };
        assert_eq!(compare_texts(x, y), expected);
    }
    assert!(Ident::from_py("a") < Ident::from_py("b"));
    assert!(Ident::from_py("struct") < Ident::from_py("t"));
    assert!(Ident::from_py("struct") > Ident::from_py("r"));
    assert_eq!(Ident::from_py("struct").partial_cmp(&Ident::from_rs("struct")), Some(Ordering::Equal));
    assert!(Path::from_py("a.b") < Path::from_py("a.c"));
    assert!(Path::from_py("a.b") < Path::from_py("a.b.c"));
    assert_eq!(Path::from_py("a.b").partial_cmp(&Path::from_rs("a::b")), Some(Ordering::Equal));
}

#[test]
fn annotation_objects_are_mapped() {
    let class = |bases: Vec<BuiltinClass>, text: &str| Annotation::Class { bases, text: text.to_string() };
    assert!(Type::from_annotation(&Annotation::Absent) == Type::Unknown);
    assert!(Type::from_annotation(&class(vec![BuiltinClass::PyLong], "<class 'int'>")) == Type::PyLong);
    assert!(
        Type::from_annotation(&class(vec![BuiltinClass::PyLong, BuiltinClass::PyBool], "<class 'bool'>"))
            == Type::PyBool
    );
    assert!(
        Type::from_annotation(&class(vec![BuiltinClass::PyDateTime, BuiltinClass::PyDate], "x"))
            == Type::PyDate
    );
    assert!(Type::from_annotation(&class(vec![], "<class 'pkg.Thing'>")) == other("pkg.Thing"));
    assert!(Type::from_annotation(&class(vec![], "<class 'float'>")) == Type::PyFloat);
    assert!(
        Type::from_annotation(&class(vec![BuiltinClass::PyList], "<class 'list'>"))
            == Type::PyList(b(Type::Unknown))
    );
    assert!(Type::from_annotation(&Annotation::Text("dict[str, int]".to_string()))
        == Type::PyDict { key_type: b(Type::PyString), value_type: b(Type::PyLong) });
    assert!(Type::from_class(&vec![BuiltinClass::PyType], "<class 'type'>") == Type::PyType);
    assert_eq!(BuiltinClass::priority().len(), 27);
    assert_eq!(BuiltinClass::priority()[0], BuiltinClass::PyBool);
    assert!(BuiltinClass::PyTuple.to_type() == Type::PyTuple(vec![Type::Unknown]));
}

#[test]
fn generic_annotation_objects_are_mapped() {
    let typing = |origin: Option<Annotation>, args: Option<Vec<Annotation>>, text: &str| Annotation::Typing {
        origin: origin.map(Box::new),
        args,
        text: text.to_string(),
    };
    let class = |base: BuiltinClass| Annotation::Class { bases: vec![base], text: String::new() };
    let int = || class(BuiltinClass::PyLong);
    let text = || class(BuiltinClass::PyString);
    let none = || Annotation::Class { bases: vec![], text: "<class 'NoneType'>".to_string() };
    let union = || typing(None, None, "typing.Union");

    assert!(Type::from_annotation(&typing(None, None, "typing.Any")) == Type::PyAny);
    assert!(
        Type::from_annotation(&typing(Some(class(BuiltinClass::PyList)), Some(vec![int()]), "typing.List[int]"))
            == Type::PyList(b(Type::PyLong))
    );
    assert!(
        Type::from_annotation(&typing(Some(class(BuiltinClass::PyList)), None, "typing.List"))
            == Type::PyList(b(Type::Unknown))
    );
    assert!(
        Type::from_annotation(&typing(
            Some(class(BuiltinClass::PyDict)),
            Some(vec![text(), typing(Some(class(BuiltinClass::PyList)), Some(vec![typing(Some(union()), Some(vec![int(), none()]), "")]), "")]),
            ""
        )) == Type::PyDict {
            key_type: b(Type::PyString),
            value_type: b(Type::PyList(b(Type::Optional(b(Type::PyLong)))))
        }
    );
    assert!(
        Type::from_annotation(&typing(Some(union()), Some(vec![none(), text()]), ""))
            == Type::Optional(b(Type::PyString))
    );
    assert!(
        Type::from_annotation(&typing(Some(union()), Some(vec![int(), text()]), ""))
            == Type::Union(vec![Type::PyLong, Type::PyString])
    );
    assert!(
        Type::from_annotation(&typing(Some(union()), Some(vec![none(), none()]), ""))
            == Type::Union(vec![Type::PyNone, Type::PyNone])
    );
    assert!(
        Type::from_annotation(&typing(Some(class(BuiltinClass::PyTuple)), Some(vec![int(), text()]), ""))
            == Type::PyTuple(vec![Type::PyLong, Type::PyString])
    );
    assert!(
        Type::from_annotation(&typing(Some(class(BuiltinClass::PyDict)), Some(vec![int()]), ""))
            == Type::PyDict { key_type: b(Type::PyLong), value_type: b(Type::Unknown) }
    );
    assert!(
        Type::from_annotation(&typing(Some(class(BuiltinClass::PyType)), Some(vec![int()]), ""))
            == Type::PyLong
    );
    assert!(
        Type::from_annotation(&typing(Some(class(BuiltinClass::PyFloat)), Some(vec![int()]), ""))
            == Type::PyFloat
    );
    assert!(
        Type::from_generic(Type::from_str("Callable"), vec![Type::PyLong, Type::PyString, Type::PyBool])
            == Type::PyFunction {
                param_types: vec![Type::PyLong, Type::PyString],
                return_annotation: b(Type::PyBool)
            }
    );
    assert!(
        Type::from_generic(Type::from_str("Callable"), vec![])
            == Type::PyFunction { param_types: vec![], return_annotation: b(Type::Unknown) }
    );
    assert!(
        Type::from_generic(Type::Optional(b(Type::Unknown)), vec![Type::PyBytes])
            == Type::Optional(b(Type::PyBytes))
    );
    assert!(Type::from_generic(Type::PySet(b(Type::Unknown)), vec![]) == Type::PySet(b(Type::Unknown)));
}

#[test]
fn types_are_written_as_rust_types() {
    let none = LocalTypes::new();
    let owned = |t: &Type| t.into_rs_owned(&none);
    let borrowed = |t: &Type| t.into_rs_borrowed(&none);
    let any = "::pyo3::Bound<'py, ::pyo3::types::PyAny>";
    let into_any = "impl ::pyo3::IntoPy<::pyo3::Py<::pyo3::types::PyAny>>";
    for t in [Type::PyAny, Type::Unknown, Type::PyNone, Type::PyDelta, Type::PyEllipsis, other("x"), Type::Union(vec![Type::PyLong])] {
        assert_eq!(owned(&t), any);
        assert_eq!(borrowed(&t), into_any);
    }
    assert_eq!(owned(&Type::PyBool), "bool");
    assert_eq!(borrowed(&Type::PyBool), "bool");
    assert_eq!(owned(&Type::PyBytes), "Vec<u8>");
    assert_eq!(borrowed(&Type::PyByteArray), "&[u8]");
    assert_eq!(owned(&Type::PyFloat), "f64");
    assert_eq!(owned(&Type::PyLong), "i64");
    assert_eq!(owned(&Type::PyString), "::std::string::String");
    assert_eq!(borrowed(&Type::PyString), "&str");
    assert_eq!(owned(&Type::Path), "::std::path::PathBuf");
    assert_eq!(borrowed(&Type::Path), "&::std::path::Path");
    assert_eq!(owned(&Type::PyModule), "::pyo3::Bound<'py, ::pyo3::types::PyModule>");
    assert_eq!(borrowed(&Type::PyModule), "&::pyo3::Bound<'py, ::pyo3::types::PyModule>");
    assert_eq!(owned(&Type::from_str("Callable")), "::pyo3::Bound<'py, ::pyo3::types::PyFunction>");
    assert_eq!(owned(&Type::Optional(b(Type::PyString))), "::std::option::Option<::std::string::String>");
    assert_eq!(borrowed(&Type::Optional(b(Type::PyString))), "::std::option::Option<::std::string::String>");
    assert_eq!(owned(&Type::PyList(b(Type::PyLong))), "Vec<i64>");
    assert_eq!(borrowed(&Type::PyList(b(Type::PyString))), "&[::std::string::String]");
    assert_eq!(owned(&Type::PySet(b(Type::PyLong))), "::std::collections::HashSet<i64>");
    assert_eq!(borrowed(&Type::PySet(b(Type::PyLong))), "&::std::collections::HashSet<i64>");
    assert_eq!(owned(&Type::PySet(b(Type::PyFloat))), "::pyo3::Bound<'py, ::pyo3::types::PySet>");
    assert_eq!(borrowed(&Type::PyFrozenSet(b(Type::PyFloat))), "&::pyo3::Bound<'py, ::pyo3::types::PyFrozenSet>");
    assert_eq!(owned(&Type::PyFrozenSet(b(Type::PyString))), "::std::collections::HashSet<::std::string::String>");
    let dict = |k: Type, v: Type| Type::PyDict { key_type: b(k), value_type: b(v) };
    assert_eq!(owned(&dict(Type::PyString, Type::PyLong)), "::std::collections::HashMap<::std::string::String, i64>");
    assert_eq!(borrowed(&dict(Type::PyString, Type::PyLong)), "&::std::collections::HashMap<::std::string::String, i64>");
    assert_eq!(owned(&dict(Type::PyFloat, Type::PyLong)), "::pyo3::Bound<'py, ::pyo3::types::PyDict>");
    assert_eq!(borrowed(&dict(Type::PyString, Type::Unknown)), "impl ::pyo3::types::IntoPyDict");
    assert_eq!(owned(&dict(Type::PyString, Type::PyList(b(Type::PyAny)))), "::pyo3::Bound<'py, ::pyo3::types::PyDict>");
    assert_eq!(owned(&Type::PyTuple(vec![])), "::pyo3::Bound<'py, ::pyo3::types::PyTuple>");
    assert_eq!(borrowed(&Type::PyTuple(vec![Type::PyLong])), "impl ::pyo3::IntoPy<::pyo3::Py<::pyo3::types::PyTuple>>");
    assert_eq!(owned(&Type::PyTuple(vec![Type::PyLong, Type::PyEllipsis])), "Vec<i64>");
    assert_eq!(borrowed(&Type::PyTuple(vec![Type::PyLong, Type::PyEllipsis])), "&[i64]");
    assert_eq!(owned(&Type::PyTuple(vec![Type::PyLong, Type::PyString, Type::PyBool])), "(i64, ::std::string::String, bool)");
    assert_eq!(borrowed(&Type::PyTuple(vec![Type::PyLong, Type::PyString])), "(i64, ::std::string::String)");
    let out = Type::PyBytes.into_rs(&none);
    assert_eq!((out.owned.as_str(), out.borrowed.as_str()), ("Vec<u8>", "&[u8]"));
}

#[test]
fn local_types_are_written_by_their_reference() {
    let types = local(&[("pkg.Thing", "super::Thing"), ("pkg.Old", "a::Old"), ("pkg.Old", "b::Old"), ("pkg.Odd", "not a path")]);
    assert_eq!(types.get(&Path::from_py("pkg.Old")).unwrap().to_rs(), "b::Old");
    assert!(types.get(&Path::from_py("pkg.New")).is_none());
    assert!(types.contains_key(&Path::from_py("pkg.Thing")));
    assert_eq!(other("pkg.Thing").into_rs_owned(&types), "::pyo3::Bound<'py, super::Thing>");
    assert_eq!(other("pkg.Thing").into_rs_borrowed(&types), "&::pyo3::Bound<'py, super::Thing>");
    assert_eq!(other("pkg.Thing[int]").into_rs_owned(&types), "::pyo3::Bound<'py, super::Thing>");
    assert_eq!(other("pkg.Old").into_rs_owned(&types), "::pyo3::Bound<'py, b::Old>");
    assert_eq!(other("pkg.Odd").into_rs_owned(&types), "::pyo3::Bound<'py, ::pyo3::types::PyAny>");
    assert_eq!(
        Type::PyList(b(other("pkg.Thing"))).into_rs_borrowed(&types),
        "&[::pyo3::Bound<'py, super::Thing>]"
    );
    assert_eq!(other("pkg.Thing").preprocess_borrowed("p_x", &types), "");
    assert_eq!(
        other("pkg.Thing[int]").preprocess_borrowed("p_x", &types),
        "let p_x = ::pyo3::IntoPy::<::pyo3::Py<::pyo3::types::PyAny>>::into_py(p_x, py); let p_x = p_x.bind(py);\n"
    );
}

#[test]
fn arguments_are_prepared_for_the_call() {
    let none = LocalTypes::new();
    let into_any = "let v = ::pyo3::IntoPy::<::pyo3::Py<::pyo3::types::PyAny>>::into_py(v, py); let v = v.bind(py);\n";
    for t in [Type::PyAny, Type::Unknown, Type::PyNone, Type::PyDelta, Type::PyEllipsis, other("x"), Type::Union(vec![])] {
        assert_eq!(t.preprocess_borrowed("v", &none), into_any);
    }
    for t in [Type::PyLong, Type::PyString, Type::PyList(b(Type::PyAny)), Type::PyModule, Type::Optional(b(Type::PyAny))] {
        assert_eq!(t.preprocess_borrowed("v", &none), "");
    }
    let dict = |k: Type, v: Type| Type::PyDict { key_type: b(k), value_type: b(v) };
    assert_eq!(dict(Type::PyString, Type::PyLong).preprocess_borrowed("v", &none), "");
    assert_eq!(
        dict(Type::PyFloat, Type::PyLong).preprocess_borrowed("v", &none),
        "let v = ::pyo3::types::IntoPyDict::into_py_dict_bound(v, py);\n"
    );
    assert_eq!(
        Type::Optional(b(dict(Type::PyString, Type::Unknown))).preprocess_borrowed("v", &none),
        "let v = if let Some(v) = v { ::pyo3::types::IntoPyDict::into_py_dict_bound(v, py) } else { ::pyo3::types::PyDict::new_bound(py) };\n"
    );
    assert_eq!(Type::Optional(b(dict(Type::PyString, Type::PyLong))).preprocess_borrowed("v", &none), "");
    assert_eq!(
        Type::PyTuple(vec![Type::PyLong]).preprocess_borrowed("v", &none),
        "let v = ::pyo3::IntoPy::<::pyo3::Py<::pyo3::types::PyTuple>>::into_py(v, py); let v = v.bind(py);\n"
    );
    assert_eq!(Type::PyTuple(vec![Type::PyLong, Type::PyLong]).preprocess_borrowed("v", &none), "");
}

#[test]
fn paths_from_segments() {
    let p = Path::from_segments(vec![Ident::from_py("a"), Ident::from_py("type")]);
    assert_eq!(p.to_rs(), "a::r#type");
    assert!(!p.leading_colon);
    assert!(Path::from_segments(vec![]).is_empty());
    assert_eq!(Path::from_rs("::a::b").to_token().unwrap(), "::a::b");
    assert!(Path::from_rs("a b").to_token().is_err());
    assert!(Path::default().to_token().is_err());
}
