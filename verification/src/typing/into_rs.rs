//! Writing a type as Rust source text.

use crate::path::{path_from_py, path_to_rs, path_accepted, Path};
use crate::text::{
    chars_of, contains_text, has_text, join, join_strings, push_item, string_of_range, views,
};
use crate::typing::local_types::{lookup, LocalTypeView, LocalTypes};
use crate::typing::{Type, TypeView};
use vstd::prelude::*;

verus! {

/// How a type is written where a value is handed out, and how where one is
/// taken in.
#[derive(Debug)]
pub struct OutputType {
    pub owned: String,
    pub borrowed: String,
}

/// The type of any Python object that is handed out.
pub open spec fn any_owned() -> Seq<char> {
    "::pyo3::Bound<'py, ::pyo3::types::PyAny>"@
}

/// The type of anything that can be made into a Python object.
pub open spec fn any_borrowed() -> Seq<char> {
    "impl ::pyo3::IntoPy<::pyo3::Py<::pyo3::types::PyAny>>"@
}

/// The type of a Python object of the class `name`, bound to the interpreter.
pub open spec fn bound(name: Seq<char>) -> Seq<char> {
    "::pyo3::Bound<'py, "@ + name + ">"@
}

/// The class of the interpreter's own objects that stands for `t`, where `t`
/// is written as a bound object of such a class.
pub open spec fn bound_kind(t: TypeView) -> Option<Seq<char>> {
    match t {
        TypeView::PySlice => Some("::pyo3::types::PySlice"@),
        TypeView::PyComplex => Some("::pyo3::types::PyComplex"@),
        TypeView::PyDate => Some("::pyo3::types::PyDate"@),
        TypeView::PyDateTime => Some("::pyo3::types::PyDateTime"@),
        TypeView::PyTime => Some("::pyo3::types::PyTime"@),
        TypeView::PyTzInfo => Some("::pyo3::types::PyTzInfo"@),
        TypeView::PyCapsule => Some("::pyo3::types::PyCapsule"@),
        TypeView::PyCFunction => Some("::pyo3::types::PyCFunction"@),
        TypeView::PyCode => Some("::pyo3::types::PyCode"@),
        TypeView::PyFrame => Some("::pyo3::types::PyFrame"@),
        TypeView::PyModule => Some("::pyo3::types::PyModule"@),
        TypeView::PySuper => Some("::pyo3::types::PySuper"@),
        TypeView::PyTraceback => Some("::pyo3::types::PyTraceback"@),
        TypeView::PyType => Some("::pyo3::types::PyType"@),
        TypeView::PyFunction { .. } => Some("::pyo3::types::PyFunction"@),
        _ => None,
    }
}

/// The text of `s` before its first `c`, or all of it where `c` does not
/// occur.
pub open spec fn before_char(s: Seq<char>, c: char) -> Seq<char>
    decreases s.len(),
{
    if s.len() == 0 || s[0] == c {
        Seq::empty()
    } else {
        seq![s[0]] + before_char(s.skip(1), c)
    }
}

/// The reference by which the scope names the class `name`, where the scope
/// knows the class and the reference is a Rust path. Arguments in square
/// brackets behind the name are left out of account.
pub open spec fn local_reference(name: Seq<char>, loc: Seq<LocalTypeView>) -> Option<Seq<char>> {
    match lookup(loc, path_from_py(before_char(name, '['))) {
        Some(p) => if path_accepted(path_to_rs(p)) {
            Some(path_to_rs(p))
        } else {
            None
        },
        None => None,
    }
}

/// How a value of type `t` is written where it is handed out.
pub open spec fn rs_owned(t: TypeView, loc: Seq<LocalTypeView>) -> Seq<char>
    decreases t,
{
    match t {
        TypeView::Other(name) => match local_reference(name, loc) {
            Some(r) => bound(r),
            None => any_owned(),
        },
        TypeView::PyBool => "bool"@,
        TypeView::PyByteArray | TypeView::PyBytes => "Vec<u8>"@,
        TypeView::PyFloat => "f64"@,
        TypeView::PyLong => "i64"@,
        TypeView::PyString => "::std::string::String"@,
        TypeView::Optional(inner) => "::std::option::Option<"@ + rs_owned(*inner, loc) + ">"@,
        TypeView::PyDict { key_type, value_type } => {
            let value = rs_owned(*value_type, loc);
            if Type::hashable(*key_type) && !contains_text(value, "PyAny"@) {
                "::std::collections::HashMap<"@ + rs_owned(*key_type, loc) + ", "@ + value + ">"@
            } else {
                bound("::pyo3::types::PyDict"@)
            }
        },
        TypeView::PyFrozenSet(inner) => if Type::hashable(*inner) {
            "::std::collections::HashSet<"@ + rs_owned(*inner, loc) + ">"@
        } else {
            bound("::pyo3::types::PyFrozenSet"@)
        },
        TypeView::PyList(inner) => "Vec<"@ + rs_owned(*inner, loc) + ">"@,
        TypeView::PySet(inner) => if Type::hashable(*inner) {
            "::std::collections::HashSet<"@ + rs_owned(*inner, loc) + ">"@
        } else {
            bound("::pyo3::types::PySet"@)
        },
        TypeView::PyTuple(items) => if items.len() < 2 {
            bound("::pyo3::types::PyTuple"@)
        } else if items.len() == 2 && items[1] is PyEllipsis {
            "Vec<"@ + rs_owned(items[0], loc) + ">"@
        } else {
            "("@ + join(rs_owned_each(items, loc), ", "@) + ")"@
        },
        TypeView::IpV4Addr => "::std::net::IpV4Addr"@,
        TypeView::IpV6Addr => "::std::net::IpV6Addr"@,
        TypeView::Path => "::std::path::PathBuf"@,
        _ => match bound_kind(t) {
            Some(k) => bound(k),
            None => any_owned(),
        },
    }
}

/// How the values of each of the types `items` are written where they are
/// handed out.
pub open spec fn rs_owned_each(items: Seq<TypeView>, loc: Seq<LocalTypeView>) -> Seq<Seq<char>>
    decreases items,
{
    Seq::new(
        items.len(),
        |i: int|
            if 0 <= i < items.len() {
                rs_owned(items[i], loc)
            } else {
                Seq::empty()
            },
    )
}

/// How a value of type `t` is written where it is taken in.
pub open spec fn rs_borrowed(t: TypeView, loc: Seq<LocalTypeView>) -> Seq<char> {
    match t {
        TypeView::Other(name) => match local_reference(name, loc) {
            Some(r) => "&"@ + bound(r),
            None => any_borrowed(),
        },
        TypeView::PyBool | TypeView::PyFloat | TypeView::PyLong | TypeView::Optional(_)
        | TypeView::IpV4Addr | TypeView::IpV6Addr => rs_owned(t, loc),
        TypeView::PyByteArray | TypeView::PyBytes => "&[u8]"@,
        TypeView::PyString => "&str"@,
        TypeView::PyDict { key_type, value_type } => if Type::hashable(*key_type) && !contains_text(
            rs_owned(*value_type, loc),
            "PyAny"@,
        ) {
            "&"@ + rs_owned(t, loc)
        } else {
            "impl ::pyo3::types::IntoPyDict"@
        },
        TypeView::PyFrozenSet(_) | TypeView::PySet(_) => "&"@ + rs_owned(t, loc),
        TypeView::PyList(inner) => "&["@ + rs_owned(*inner, loc) + "]"@,
        TypeView::PyTuple(items) => if items.len() < 2 {
            "impl ::pyo3::IntoPy<::pyo3::Py<::pyo3::types::PyTuple>>"@
        } else if items.len() == 2 && items[1] is PyEllipsis {
            "&["@ + rs_owned(items[0], loc) + "]"@
        } else {
            rs_owned(t, loc)
        },
        TypeView::Path => "&::std::path::Path"@,
        _ => match bound_kind(t) {
            Some(_) => "&"@ + rs_owned(t, loc),
            None => any_borrowed(),
        },
    }
}

/// The statements that turn the parameter `id` into a Python object of its
/// own.
pub open spec fn into_any(id: Seq<char>) -> Seq<char> {
    "let "@ + id + " = ::pyo3::IntoPy::<::pyo3::Py<::pyo3::types::PyAny>>::into_py("@ + id
        + ", py); let "@ + id + " = "@ + id + ".bind(py);\n"@
}

/// Whether a dictionary with these types of keys and values is taken in as a
/// Python dictionary, not as a Rust hash map.
pub open spec fn taken_as_py_dict(key: TypeView, value: TypeView, loc: Seq<LocalTypeView>) -> bool {
    !Type::hashable(key) || contains_text(rs_owned(value, loc), "PyAny"@)
}

/// The statements that prepare the parameter `id` of type `t` for the call
/// into Python, where its Rust type cannot be passed as it is.
pub open spec fn preprocessing(t: TypeView, id: Seq<char>, loc: Seq<LocalTypeView>) -> Seq<char> {
    match t {
        TypeView::PyDict { key_type, value_type } => if taken_as_py_dict(
            *key_type,
            *value_type,
            loc,
        ) {
            "let "@ + id + " = ::pyo3::types::IntoPyDict::into_py_dict_bound("@ + id + ", py);\n"@
        } else {
            Seq::empty()
        },
        TypeView::PyTuple(items) => if items.len() < 2 {
            "let "@ + id + " = ::pyo3::IntoPy::<::pyo3::Py<::pyo3::types::PyTuple>>::into_py("@
                + id + ", py); let "@ + id + " = "@ + id + ".bind(py);\n"@
        } else {
            Seq::empty()
        },
        TypeView::PyAny | TypeView::Unknown | TypeView::Union(_) | TypeView::PyNone
        | TypeView::PyDelta | TypeView::PyEllipsis => into_any(id),
        TypeView::Other(name) => if lookup(loc, path_from_py(name)) is None {
            into_any(id)
        } else {
            Seq::empty()
        },
        TypeView::Optional(inner) => match *inner {
            TypeView::PyDict { key_type, value_type } => if taken_as_py_dict(
                *key_type,
                *value_type,
                loc,
            ) {
                "let "@ + id + " = if let Some("@ + id + ") = "@ + id
                    + " { ::pyo3::types::IntoPyDict::into_py_dict_bound("@ + id
                    + ", py) } else { ::pyo3::types::PyDict::new_bound(py) };\n"@
            } else {
                Seq::empty()
            },
            _ => Seq::empty(),
        },
        _ => Seq::empty(),
    }
}

/// The texts `a`, `b` and `c` in a row.
pub fn cat3(a: &str, b: &str, c: &str) -> (s: String)
    ensures
        s@ == a@ + b@ + c@,
{
    let mut s = String::from_str(a);
    s.append(b);
    s.append(c);
    s
}

/// The text of `s` before its first `c`.
fn text_before(s: &str, c: char) -> (out: String)
    ensures
        out@ == before_char(s@, c),
{
    let cs = chars_of(s);
    let mut i: usize = 0;
    assert(cs@.skip(0) =~= cs@);
    assert(cs@.subrange(0, 0) =~= Seq::<char>::empty());
    while i < cs.len() && cs[i] != c
        invariant
            i <= cs.len(),
            before_char(cs@, c) == cs@.subrange(0, i as int) + before_char(cs@.skip(i as int), c),
        decreases cs.len() - i,
    {
        let ghost rest = cs@.skip(i as int);
        assert(rest.skip(1) =~= cs@.skip(i as int + 1));
        assert(cs@.subrange(0, i as int) + (seq![rest[0]] + before_char(rest.skip(1), c))
            =~= cs@.subrange(0, i as int + 1) + before_char(rest.skip(1), c));
        i += 1;
    }
    assert(before_char(cs@.skip(i as int), c) =~= Seq::<char>::empty());
    assert(cs@.subrange(0, i as int) + Seq::<char>::empty() =~= cs@.subrange(0, i as int));
    string_of_range(&cs, 0, i)
}

/// The reference by which the scope names the class `name`.
fn local_reference_of(name: &str, local_types: &LocalTypes) -> (r: Option<String>)
    ensures
        r is Some == local_reference(name@, local_types@) is Some,
        r matches Some(s) ==> local_reference(name@, local_types@) == Some(s@),
{
    let bare = text_before(name, '[');
    match local_types.get(&Path::from_py(bare.as_str())) {
        Some(p) => match p.to_token() {
            Ok(text) => Some(text),
            Err(_) => None,
        },
        None => None,
    }
}

/// The class of the interpreter's own objects that stands for `t`.
fn bound_kind_of(t: &Type) -> (r: Option<&'static str>)
    ensures
        r is Some == bound_kind(t@) is Some,
        r matches Some(s) ==> bound_kind(t@) == Some(s@),
{
    match t {
        Type::PySlice => Some("::pyo3::types::PySlice"),
        Type::PyComplex => Some("::pyo3::types::PyComplex"),
        Type::PyDate => Some("::pyo3::types::PyDate"),
        Type::PyDateTime => Some("::pyo3::types::PyDateTime"),
        Type::PyTime => Some("::pyo3::types::PyTime"),
        Type::PyTzInfo => Some("::pyo3::types::PyTzInfo"),
        Type::PyCapsule => Some("::pyo3::types::PyCapsule"),
        Type::PyCFunction => Some("::pyo3::types::PyCFunction"),
        Type::PyCode => Some("::pyo3::types::PyCode"),
        Type::PyFrame => Some("::pyo3::types::PyFrame"),
        Type::PyModule => Some("::pyo3::types::PyModule"),
        Type::PySuper => Some("::pyo3::types::PySuper"),
        Type::PyTraceback => Some("::pyo3::types::PyTraceback"),
        Type::PyType => Some("::pyo3::types::PyType"),
        Type::PyFunction { .. } => Some("::pyo3::types::PyFunction"),
        _ => None,
    }
}

/// The two ways of writing a type that is written in one way only.
fn identical(text: String) -> (out: OutputType)
    ensures
        out.owned@ == text@,
        out.borrowed@ == text@,
{
    OutputType { owned: text.clone(), borrowed: text }
}

/// The two ways of writing a type, from literal texts.
fn pair(owned: &str, borrowed: &str) -> (out: OutputType)
    ensures
        out.owned@ == owned@,
        out.borrowed@ == borrowed@,
{
    OutputType { owned: String::from_str(owned), borrowed: String::from_str(borrowed) }
}

/// How each of `items` is written where it is handed out.
fn owned_texts(items: &Vec<Type>, local_types: &LocalTypes) -> (out: Vec<String>)
    ensures
        views(out@) == rs_owned_each(views(items@), local_types@),
    decreases items, 0nat,
{
    let ghost goal = rs_owned_each(views(items@), local_types@);
    let mut out: Vec<String> = Vec::new();
    let mut i: usize = 0;
    assert(views(out@) =~= goal.take(0));
    while i < items.len()
        invariant
            i <= items.len(),
            goal == rs_owned_each(views(items@), local_types@),
            views(out@) == goal.take(i as int),
        decreases items.len() - i,
    {
        let text = items[i].into_rs(local_types).owned;
        push_item(&mut out, text);
        assert(views(out@) =~= goal.take(i as int + 1));
        i += 1;
    }
    assert(goal.take(items.len() as int) =~= goal);
    out
}

impl Type {
    /// How the type is written where a value is handed out, and how where one
    /// is taken in.
    pub fn into_rs(&self, local_types: &LocalTypes) -> (out: OutputType)
        ensures
            out.owned@ == rs_owned(self@, local_types@),
            out.borrowed@ == rs_borrowed(self@, local_types@),
        decreases self, 1nat,
    {
        let ghost want_o = rs_owned(self@, local_types@);
        let ghost want_b = rs_borrowed(self@, local_types@);
        match self {
            Type::Other(name) => match local_reference_of(name.as_str(), local_types) {
                Some(r) => {
                    let owned = cat3("::pyo3::Bound<'py, ", r.as_str(), ">");
                    let borrowed = String::from_str("&").concat(owned.as_str());
                    OutputType { owned, borrowed }
                },
                None => pair(
                    "::pyo3::Bound<'py, ::pyo3::types::PyAny>",
                    "impl ::pyo3::IntoPy<::pyo3::Py<::pyo3::types::PyAny>>",
                ),
            },
            Type::PyBool => identical(String::from_str("bool")),
            Type::PyByteArray | Type::PyBytes => pair("Vec<u8>", "&[u8]"),
            Type::PyFloat => identical(String::from_str("f64")),
            Type::PyLong => identical(String::from_str("i64")),
            Type::PyString => pair("::std::string::String", "&str"),
            Type::Optional(inner) => {
                let inner_text = inner.into_rs(local_types).owned;
                identical(cat3("::std::option::Option<", inner_text.as_str(), ">"))
            },
            Type::PyDict { key_type, value_type } => {
                let value = value_type.into_rs(local_types).owned;
                if key_type.is_hashable() && !has_text(value.as_str(), "PyAny") {
                    let key = key_type.into_rs(local_types).owned;
                    let mut owned = cat3("::std::collections::HashMap<", key.as_str(), ", ");
                    owned.append(value.as_str());
                    owned.append(">");
                    let borrowed = String::from_str("&").concat(owned.as_str());
                    OutputType { owned, borrowed }
                } else {
                    OutputType {
                        owned: cat3("::pyo3::Bound<'py, ", "::pyo3::types::PyDict", ">"),
                        borrowed: String::from_str("impl ::pyo3::types::IntoPyDict"),
                    }
                }
            },
            Type::PyFrozenSet(inner) => {
                let owned = if inner.is_hashable() {
                    let inner_text = inner.into_rs(local_types).owned;
                    cat3("::std::collections::HashSet<", inner_text.as_str(), ">")
                } else {
                    cat3("::pyo3::Bound<'py, ", "::pyo3::types::PyFrozenSet", ">")
                };
                let borrowed = String::from_str("&").concat(owned.as_str());
                OutputType { owned, borrowed }
            },
            Type::PyList(inner) => {
                let inner_text = inner.into_rs(local_types).owned;
                OutputType {
                    owned: cat3("Vec<", inner_text.as_str(), ">"),
                    borrowed: cat3("&[", inner_text.as_str(), "]"),
                }
            },
            Type::PySet(inner) => {
                let owned = if inner.is_hashable() {
                    let inner_text = inner.into_rs(local_types).owned;
                    cat3("::std::collections::HashSet<", inner_text.as_str(), ">")
                } else {
                    cat3("::pyo3::Bound<'py, ", "::pyo3::types::PySet", ">")
                };
                let borrowed = String::from_str("&").concat(owned.as_str());
                OutputType { owned, borrowed }
            },
            Type::PyTuple(items) => {
                proof {
                    Type::lemma_models(items);
                }
                if items.len() < 2 {
                    OutputType {
                        owned: cat3("::pyo3::Bound<'py, ", "::pyo3::types::PyTuple", ">"),
                        borrowed: String::from_str(
                            "impl ::pyo3::IntoPy<::pyo3::Py<::pyo3::types::PyTuple>>",
                        ),
                    }
                } else if items.len() == 2 && matches!(items[1], Type::PyEllipsis) {
                    let inner_text = items[0].into_rs(local_types).owned;
                    OutputType {
                        owned: cat3("Vec<", inner_text.as_str(), ">"),
                        borrowed: cat3("&[", inner_text.as_str(), "]"),
                    }
                } else {
                    let texts = owned_texts(items, local_types);
                    let inner_text = join_strings(&texts, ", ");
                    identical(cat3("(", inner_text.as_str(), ")"))
                }
            },
            Type::IpV4Addr => identical(String::from_str("::std::net::IpV4Addr")),
            Type::IpV6Addr => identical(String::from_str("::std::net::IpV6Addr")),
            Type::Path => pair("::std::path::PathBuf", "&::std::path::Path"),
            _ => match bound_kind_of(self) {
                Some(k) => {
                    let owned = cat3("::pyo3::Bound<'py, ", k, ">");
                    let borrowed = String::from_str("&").concat(owned.as_str());
                    OutputType { owned, borrowed }
                },
                None => pair(
                    "::pyo3::Bound<'py, ::pyo3::types::PyAny>",
                    "impl ::pyo3::IntoPy<::pyo3::Py<::pyo3::types::PyAny>>",
                ),
            },
        }
    }

    /// How the type is written where a value is handed out.
    pub fn into_rs_owned(&self, local_types: &LocalTypes) -> (s: String)
        ensures
            s@ == rs_owned(self@, local_types@),
    {
        self.into_rs(local_types).owned
    }

    /// How the type is written where a value is taken in.
    pub fn into_rs_borrowed(&self, local_types: &LocalTypes) -> (s: String)
        ensures
            s@ == rs_borrowed(self@, local_types@),
    {
        self.into_rs(local_types).borrowed
    }

    /// Whether a dictionary with these types of keys and values is taken in
    /// as a Python dictionary.
    fn is_taken_as_py_dict(key: &Type, value: &Type, local_types: &LocalTypes) -> (r: bool)
        ensures
            r == taken_as_py_dict(key@, value@, local_types@),
    {
        !key.is_hashable() || has_text(value.into_rs(local_types).owned.as_str(), "PyAny")
    }

    /// The statements that turn the parameter `ident` into a Python object.
    fn convert_into_any(ident: &str) -> (s: String)
        ensures
            s@ == into_any(ident@),
    {
        let mut s = cat3(
            "let ",
            ident,
            " = ::pyo3::IntoPy::<::pyo3::Py<::pyo3::types::PyAny>>::into_py(",
        );
        s.append(ident);
        s.append(", py); let ");
        s.append(ident);
        s.append(" = ");
        s.append(ident);
        s.append(".bind(py);\n");
        s
    }

    /// The statements that prepare the parameter `ident` of this type for the
    /// call into Python, where its Rust type cannot be passed as it is.
    pub fn preprocess_borrowed(&self, ident: &str, local_types: &LocalTypes) -> (s: String)
        ensures
            s@ == preprocessing(self@, ident@, local_types@),
    {
        reveal_with_fuel(Type::model, 2);
        match self {
            Type::PyDict { key_type, value_type } => {
                if Type::is_taken_as_py_dict(key_type, value_type, local_types) {
                    let mut s = cat3(
                        "let ",
                        ident,
                        " = ::pyo3::types::IntoPyDict::into_py_dict_bound(",
                    );
                    s.append(ident);
                    s.append(", py);\n");
                    s
                } else {
                    String::new()
                }
            },
            Type::PyTuple(items) => {
                proof {
                    Type::lemma_models(items);
                }
                if items.len() < 2 {
                    let mut s = cat3(
                        "let ",
                        ident,
                        " = ::pyo3::IntoPy::<::pyo3::Py<::pyo3::types::PyTuple>>::into_py(",
                    );
                    s.append(ident);
                    s.append(", py); let ");
                    s.append(ident);
                    s.append(" = ");
                    s.append(ident);
                    s.append(".bind(py);\n");
                    s
                } else {
                    String::new()
                }
            },
            Type::PyAny
            | Type::Unknown
            | Type::Union(_)
            | Type::PyNone
            | Type::PyDelta
            | Type::PyEllipsis => Type::convert_into_any(ident),
            Type::Other(name) => {
                if !local_types.contains_key(&Path::from_py(name.as_str())) {
                    Type::convert_into_any(ident)
                } else {
                    String::new()
                }
            },
            Type::Optional(inner) => match &**inner {
                Type::PyDict { key_type, value_type } => {
                    if Type::is_taken_as_py_dict(key_type, value_type, local_types) {
                        let mut s = cat3("let ", ident, " = if let Some(");
                        s.append(ident);
                        s.append(") = ");
                        s.append(ident);
                        s.append(" { ::pyo3::types::IntoPyDict::into_py_dict_bound(");
                        s.append(ident);
                        s.append(", py) } else { ::pyo3::types::PyDict::new_bound(py) };\n");
                        s
                    } else {
                        String::new()
                    }
                },
                _ => String::new(),
            },
            _ => String::new(),
        }
    }
}

/// A name that the scope does not know is written as any Python object: a
/// reference that leads nowhere is never written.
pub proof fn lemma_unknown_name_is_opaque(name: Seq<char>, loc: Seq<LocalTypeView>)
    requires
        lookup(loc, path_from_py(before_char(name, '['))) is None,
    ensures
        rs_owned(TypeView::Other(name), loc) == any_owned(),
        rs_borrowed(TypeView::Other(name), loc) == any_borrowed(),
{
}

} // verus!
