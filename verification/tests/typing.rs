use pyo3_bindgen_engine::typing::from_py::repair_complex_sequence;
use pyo3_bindgen_engine::typing::Type;

fn b(t: Type) -> Box<Type> {
    Box::new(t)
}

fn other(name: &str) -> Type {
    Type::Other(name.to_string())
}

#[test]
fn test_repair_complex_sequence() {
    // Arrange
    let mut sequence = vec!["dict[str".to_string(), "Any]".to_string()];

    // Act
    repair_complex_sequence(&mut sequence, ',');

    // Assert
    assert_eq!(sequence, vec!["dict[str,Any]".to_string()]);
}

#[test]
fn repair_goes_on_behind_a_merged_group() {
    let mut sequence: Vec<String> =
        vec!["a[", "x", "b]", "c[", "d]", "e"].into_iter().map(String::from).collect();
    repair_complex_sequence(&mut sequence, ',');
    assert_eq!(sequence, vec!["a[,x,b]".to_string(), "c[,d]".to_string(), "e".to_string()]);
}

#[test]
fn repair_leaves_unbalanced_and_empty_input_alone() {
    let mut sequence: Vec<String> = vec!["a[".to_string(), "b".to_string()];
    repair_complex_sequence(&mut sequence, '|');
    assert_eq!(sequence, vec!["a[".to_string(), "b".to_string()]);
    let mut empty: Vec<String> = Vec::new();
    repair_complex_sequence(&mut empty, ',');
    assert!(empty.is_empty());
    let mut closing_first: Vec<String> = vec!["a]".to_string(), "b[".to_string(), "c".to_string()];
    repair_complex_sequence(&mut closing_first, ',');
    assert_eq!(closing_first, vec!["a],b[".to_string(), "c".to_string()]);
}

#[test]
fn type_from_str_known_names() {
    assert!(Type::from_str("Any") == Type::PyAny);
    assert!(Type::from_str("bool") == Type::PyBool);
    assert!(Type::from_str("bytearray") == Type::PyByteArray);
    assert!(Type::from_str("bytes") == Type::PyBytes);
    assert!(Type::from_str("float") == Type::PyFloat);
    assert!(Type::from_str("int") == Type::PyLong);
    assert!(Type::from_str("str") == Type::PyString);
    assert!(Type::from_str("") == Type::PyNone);
    assert!(Type::from_str("None") == Type::PyNone);
    assert!(Type::from_str("NoneType") == Type::PyNone);
    assert!(Type::from_str("Union") == Type::Union(vec![Type::Unknown]));
    assert!(Type::from_str("tuple") == Type::PyTuple(vec![Type::Unknown]));
    assert!(Type::from_str("list") == Type::PyList(b(Type::Unknown)));
    assert!(Type::from_str("Iterator") == Type::PyList(b(Type::Unknown)));
    assert!(
        Type::from_str("Mapping")
            == Type::PyDict { key_type: b(Type::Unknown), value_type: b(Type::Unknown) }
    );
    assert!(Type::from_str("pathlib.Path") == Type::Path);
    assert!(Type::from_str("os.PathLike") == Type::Path);
    assert!(Type::from_str("ipaddress.IPv4Address") == Type::IpV4Addr);
    assert!(Type::from_str("timedelta") == Type::PyDelta);
    assert!(Type::from_str("datetime.datetime") == Type::PyDateTime);
    assert!(Type::from_str("...") == Type::PyEllipsis);
    assert!(Type::from_str("Ellipsis") == Type::PyEllipsis);
    assert!(Type::from_str("module") == Type::PyModule);
    assert!(
        Type::from_str("callable")
            == Type::PyFunction {
                param_types: vec![Type::PyEllipsis],
                return_annotation: b(Type::Unknown)
            }
    );
}

#[test]
fn type_from_str_never_bound_names_are_any() {
    for name in [
        "_collections._tuplegetter",
        "AsyncState",
        "getset_descriptor",
        "member_descriptor",
        "method_descriptor",
        "property",
        "py",
    ] {
        assert!(Type::from_str(name) == Type::PyAny);
    }
}

#[test]
fn type_from_str_other_names_are_kept() {
    assert!(Type::from_str("numpy.ndarray") == other("numpy.ndarray"));
    assert!(Type::from_str(" int") == other(" int"));
    assert!(Type::from_str("List[int]") == other("List[int]"));
    assert!(Type::from_str("dict[") == other("dict["));
    assert!(Type::from_str("<class '>") == other("<class '>"));
}

#[test]
fn type_from_str_optional_and_union() {
    assert!(Type::from_str("int | None") == Type::Optional(b(Type::PyLong)));
    assert!(Type::from_str("None | str") == Type::Optional(b(Type::PyString)));
    assert!(Type::from_str("int|str") == Type::Union(vec![Type::PyLong, Type::PyString]));
    assert!(
        Type::from_str("int | str | None")
            == Type::Union(vec![Type::PyLong, Type::PyString, Type::PyNone])
    );
    assert!(Type::from_str("None | None") == Type::Union(vec![Type::PyNone, Type::PyNone]));
    assert!(Type::from_str("NoneType | int") == Type::Union(vec![Type::PyNone, Type::PyLong]));
    assert!(
        Type::from_str("dict[str, int] | None")
            == Type::Optional(b(Type::PyDict {
                key_type: b(Type::PyString),
                value_type: b(Type::PyLong)
            }))
    );
}

#[test]
fn type_from_str_containers() {
    assert!(
        Type::from_str("dict[str, int]")
            == Type::PyDict { key_type: b(Type::PyString), value_type: b(Type::PyLong) }
    );
    assert!(
        Type::from_str("dict[str]")
            == Type::PyDict { key_type: b(Type::PyString), value_type: b(Type::Unknown) }
    );
    assert!(Type::from_str("list[int]") == Type::PyList(b(Type::PyLong)));
    assert!(Type::from_str("Sequence[str]") == Type::PyList(b(Type::PyString)));
    assert!(Type::from_str("Iterable[bytes]") == Type::PyList(b(Type::PyBytes)));
    assert!(Type::from_str("set[float]") == Type::PySet(b(Type::PyFloat)));
    assert!(Type::from_str("frozenset[bool]") == Type::PyFrozenSet(b(Type::PyBool)));
    assert!(
        Type::from_str("tuple[int, str, ...]")
            == Type::PyTuple(vec![Type::PyLong, Type::PyString, Type::PyEllipsis])
    );
    assert!(Type::from_str("type[int]") == Type::PyLong);
    assert!(Type::from_str("<class 'int'>") == Type::PyLong);
    assert!(Type::from_str("<enum 'Color'>") == other("Color"));
    assert!(Type::from_str("typing.Any") == Type::PyAny);
    assert!(Type::from_str("collections.abc.Sequence[int]") == Type::PyList(b(Type::PyLong)));
    assert!(Type::from_str("collections.OrderedDict") == other("OrderedDict"));
}

#[test]
fn type_from_str_callable() {
    assert!(
        Type::from_str("Callable[int, str, bool]")
            == Type::PyFunction {
                param_types: vec![Type::PyLong, Type::PyString],
                return_annotation: b(Type::PyBool)
            }
    );
    assert!(
        Type::from_str("Callable[int]")
            == Type::PyFunction { param_types: vec![], return_annotation: b(Type::PyLong) }
    );
    assert!(
        Type::from_str("Callable[[int, str], bool]")
            == Type::PyFunction {
                param_types: vec![other("[int,str]")],
                return_annotation: b(Type::PyBool)
            }
    );
}

#[test]
fn type_from_str_nested_generics_are_resolved() {
    let expected = Type::PyDict {
        key_type: b(Type::PyString),
        value_type: b(Type::PyList(b(Type::Optional(b(Type::PyLong))))),
    };
    assert!(Type::from_str("dict[str, list[int | None]]") == expected);
    assert!(Type::from_str("dict[str,list[None|int]]") == expected);
    assert!(
        Type::from_str("tuple[dict[str, int], list[tuple[int, str]]]")
            == Type::PyTuple(vec![
                Type::PyDict { key_type: b(Type::PyString), value_type: b(Type::PyLong) },
                Type::PyList(b(Type::PyTuple(vec![Type::PyLong, Type::PyString]))),
            ])
    );
    assert!(
        Type::from_str("list[int | str] | None")
            == Type::Optional(b(Type::PyList(b(Type::Union(vec![Type::PyLong, Type::PyString])))))
    );
    assert!(
        Type::from_str("dict[list[a, b, c], list[d, e]]")
            == Type::PyDict {
                key_type: b(Type::PyList(b(other("a,b,c")))),
                value_type: b(Type::PyList(b(other("d,e"))))
            }
    );
}

#[test]
fn type_hashable_kinds() {
    assert!(Type::PyBool.is_hashable());
    assert!(Type::PyLong.is_hashable());
    assert!(Type::PyString.is_hashable());
    assert!(Type::Path.is_hashable());
    assert!(Type::PyDelta.is_hashable());
    assert!(Type::PySet(b(Type::PyAny)).is_hashable());
    assert!(Type::from_str("dict").is_hashable());
    assert!(!Type::PyFloat.is_hashable());
    assert!(!Type::PyAny.is_hashable());
    assert!(!Type::PyList(b(Type::PyLong)).is_hashable());
    assert!(!other("x").is_owned_hashable());
    assert!(Type::IpV6Addr.is_owned_hashable());
}

#[test]
fn type_equality_and_clone() {
    let t = Type::from_str("dict[str, tuple[int, Foo]]");
    assert!(t.clone() == t);
    assert!(t.same(&t.clone()));
    assert!(t != Type::from_str("dict[str, tuple[int, Bar]]"));
    assert!(Type::PyTuple(vec![]) != Type::Union(vec![]));
}

fn kept_names(t: &Type, out: &mut Vec<String>) {
    match t {
        Type::Other(name) => out.push(name.clone()),
        Type::Optional(inner) | Type::PyFrozenSet(inner) | Type::PyList(inner) | Type::PySet(inner) => {
            kept_names(inner, out)
        }
        Type::Union(items) | Type::PyTuple(items) => items.iter().for_each(|i| kept_names(i, out)),
        Type::PyDict { key_type, value_type } => {
            kept_names(key_type, out);
            kept_names(value_type, out);
        }
        Type::PyFunction { param_types, return_annotation } => {
            param_types.iter().for_each(|i| kept_names(i, out));
            kept_names(return_annotation, out);
        }
        _ => {}
    }
}

#[test]
fn type_from_str_keeps_whole_names_only() {
    let cases = [
        ("dict[str, list[Foo[int, str] | None]]", vec!["Foo[int,str]"]),
        ("Mapping[str, Sequence[Optional[int]]]", vec!["Mapping[str, Sequence[Optional[int]]]"]),
        ("tuple[a.B[c, d], e.F[g | h]] | None", vec!["a.B[c,d]", "e.F[g|h]"]),
        ("Callable[[int, X[y, z]], W[v]]", vec!["[int,X[y,z]]", "W[v]"]),
        ("set[P[q]] | frozenset[R[s, t]] | U", vec!["P[q]", "R[s, t]", "U"]),
    ];
    for (text, expected) in cases {
        let mut names = Vec::new();
        kept_names(&Type::from_str(text), &mut names);
        assert_eq!(names, expected, "{text}");
        for name in names {
            let open = name.chars().filter(|c| *c == '[').count();
            let close = name.chars().filter(|c| *c == ']').count();
            assert_eq!(open, close, "{name}");
        }
    }
}
