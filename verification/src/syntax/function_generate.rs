//! Writing the code that calls a Python function.

use crate::config::{forbidden_function_name, is_forbidden_function_name, Config};
use crate::emit::{
    alphanumeric, doc_attribute, doc_attribute_of, is_alphanumeric, literal, string_literal,
};
use crate::error::PyBindgenError;
use crate::ident::{py_form, rs_form, ident_accepted, same_ident, Ident};
use crate::model::view_opt;
use crate::naming::{
    candidate, decimal, fresh, fresh_name, lemma_fresh_after_two, push_decimal, taken,
};
use crate::path::{import_expression, PathView};
use crate::syntax::function::{
    Function, FunctionType, FunctionTypeView, FunctionView, MethodType, Parameter, ParameterKind,
    ParameterView,
};
use crate::syntax::function_definition::{
    no_function, no_method, FunctionImplementation, FunctionImplementationView, TraitMethod,
    TraitMethodView,
};
use crate::text::{chars_of, push_char, views};
use crate::typing::into_rs::{preprocessing, rs_borrowed, rs_owned};
use crate::typing::local_types::{LocalTypeView, LocalTypes};
use vstd::prelude::*;

verus! {

/// `py` with an underscore in place of each character that is neither a
/// letter nor a digit.
pub open spec fn sanitized(py: Seq<char>) -> Seq<char> {
    Seq::new(
        py.len(),
        |i: int|
            if alphanumeric(py[i]) {
                py[i]
            } else {
                '_'
            },
    )
}

/// The name under which `prefix` and a sanitized form of the name `name` can
/// stand in generated code, where `name` itself cannot.
pub open spec fn substitute(prefix: Seq<char>, name: Seq<char>) -> Seq<char> {
    rs_form(prefix + sanitized(py_form(name)))
}

/// The name of the generated function for the attribute `name`: the name
/// itself where it is an identifier that generated code does not keep for
/// itself, a substitute where it is no identifier and the substitute is one,
/// and none otherwise.
pub open spec fn function_token(name: Seq<char>) -> Option<Seq<char>> {
    if ident_accepted(name) {
        if forbidden_function_name(py_form(name)) {
            None
        } else {
            Some(name)
        }
    } else if ident_accepted(substitute("f_"@, name)) {
        Some(substitute("f_"@, name))
    } else {
        None
    }
}

/// The name of the variable that holds the argument for `p`.
pub open spec fn parameter_token(p: ParameterView) -> Seq<char> {
    rs_form("p_"@ + py_form(p.name))
}

/// Whether the variables of all parameters have names that are identifiers.
pub open spec fn parameters_valid(ps: Seq<ParameterView>) -> bool {
    forall|i: int| 0 <= i < ps.len() ==> ident_accepted(parameter_token(#[trigger] ps[i]))
}

/// The type of the variable that holds the argument for `p`.
pub open spec fn parameter_type(p: ParameterView, loc: Seq<LocalTypeView>) -> Seq<char> {
    if p.has_default {
        "Option<"@ + rs_borrowed(p.annotation, loc) + ">"@
    } else {
        rs_borrowed(p.annotation, loc)
    }
}

/// The parameters as they stand in the head of the generated function,
/// behind its first parameter.
pub open spec fn signature_parameters(ps: Seq<ParameterView>, loc: Seq<LocalTypeView>) -> Seq<char>
    decreases ps.len(),
{
    if ps.len() == 0 {
        Seq::empty()
    } else {
        signature_parameters(ps.drop_last(), loc) + ", "@ + parameter_token(ps.last()) + ": "@
            + parameter_type(ps.last(), loc)
    }
}

/// The statements that prepare the argument for `p`: they note whether an
/// optional argument was given, and convert what cannot be passed as it is.
pub open spec fn preparation(p: ParameterView, loc: Seq<LocalTypeView>) -> Seq<char> {
    if p.has_default {
        "let optional_"@ + parameter_token(p) + " = "@ + parameter_token(p) + ".is_some();\n"@
            + preprocessing(p.annotation, parameter_token(p), loc)
    } else {
        preprocessing(p.annotation, parameter_token(p), loc)
    }
}

/// The statements that prepare all arguments.
pub open spec fn preparations(ps: Seq<ParameterView>, loc: Seq<LocalTypeView>) -> Seq<char>
    decreases ps.len(),
{
    if ps.len() == 0 {
        Seq::empty()
    } else {
        preparations(ps.drop_last(), loc) + preparation(ps.last(), loc)
    }
}

/// The items of the tuple of positional arguments.
pub open spec fn positional_items(ps: Seq<ParameterView>) -> Seq<char>
    decreases ps.len(),
{
    if ps.len() == 0 {
        Seq::empty()
    } else if ps.last().kind.positional() {
        positional_items(ps.drop_last()) + "::pyo3::ToPyObject::to_object(&"@ + parameter_token(
            ps.last(),
        ) + ", py), "@
    } else {
        positional_items(ps.drop_last())
    }
}

/// How many parameters are of a kind that satisfies `of_kind`.
pub open spec fn count_kind(ps: Seq<ParameterView>, of_kind: spec_fn(ParameterKind) -> bool) -> nat
    decreases ps.len(),
{
    if ps.len() == 0 {
        0
    } else if of_kind(ps.last().kind) {
        count_kind(ps.drop_last(), of_kind) + 1
    } else {
        count_kind(ps.drop_last(), of_kind)
    }
}

/// How many parameters take their argument by position.
pub open spec fn positional_count(ps: Seq<ParameterView>) -> nat {
    count_kind(ps, |k: ParameterKind| k.positional())
}

/// How many parameters take their argument by keyword only.
pub open spec fn keyword_count(ps: Seq<ParameterView>) -> nat {
    count_kind(ps, |k: ParameterKind| k == ParameterKind::KeywordOnly)
}

/// The variable of the first parameter of kind `kind`.
pub open spec fn first_of_kind(ps: Seq<ParameterView>, kind: ParameterKind) -> Option<Seq<char>>
    decreases ps.len(),
{
    if ps.len() == 0 {
        None
    } else if ps[0].kind == kind {
        Some(parameter_token(ps[0]))
    } else {
        first_of_kind(ps.skip(1), kind)
    }
}

/// The expression for the positional arguments of the call.
pub open spec fn positional_arguments(ps: Seq<ParameterView>) -> Seq<char> {
    match first_of_kind(ps, ParameterKind::VarPositional) {
        Some(v) => if positional_count(ps) == 0 {
            v
        } else {
            "{ let mut __internal__args = Vec::with_capacity("@ + decimal(positional_count(ps))
                + "usize + ::pyo3::types::PyTupleMethods::len("@ + v
                + ")); __internal__args.extend(["@ + positional_items(ps)
                + "]); __internal__args.extend(::pyo3::types::PyTupleMethods::iter("@ + v
                + ").map(|__internal__arg| ::pyo3::ToPyObject::to_object(&__internal__arg, py))); ::pyo3::types::PyTuple::new_bound(py, __internal__args) }"@
        },
        None => if positional_count(ps) == 0 {
            "()"@
        } else {
            "::pyo3::types::PyTuple::new_bound(py, ["@ + positional_items(ps) + "])"@
        },
    }
}

/// The statement that passes the argument for the keyword parameter `p`. An
/// optional argument is passed only where it was given.
pub open spec fn keyword_item(p: ParameterView) -> Seq<char> {
    if p.has_default {
        "if optional_"@ + parameter_token(p)
            + " { ::pyo3::types::PyDictMethods::set_item(&__internal__kwargs, ::pyo3::intern!(py, "@
            + literal(py_form(p.name)) + "), "@ + parameter_token(p) + "); }; "@
    } else {
        "::pyo3::types::PyDictMethods::set_item(&__internal__kwargs, ::pyo3::intern!(py, "@
            + literal(py_form(p.name)) + "), "@ + parameter_token(p) + "); "@
    }
}

/// The statements that pass the arguments for the keyword parameters.
pub open spec fn keyword_items(ps: Seq<ParameterView>) -> Seq<char>
    decreases ps.len(),
{
    if ps.len() == 0 {
        Seq::empty()
    } else if ps.last().kind == ParameterKind::KeywordOnly {
        keyword_items(ps.drop_last()) + keyword_item(ps.last())
    } else {
        keyword_items(ps.drop_last())
    }
}

/// The expression for the keyword arguments of the call.
pub open spec fn keyword_arguments(ps: Seq<ParameterView>) -> Seq<char> {
    match first_of_kind(ps, ParameterKind::VarKeyword) {
        Some(v) => if keyword_count(ps) == 0 {
            v
        } else {
            "{ let __internal__kwargs = "@ + v + "; "@ + keyword_items(ps) + "__internal__kwargs }"@
        },
        None => if keyword_count(ps) == 0 {
            "::pyo3::types::PyDict::new_bound(py)"@
        } else {
            "{ let __internal__kwargs = ::pyo3::types::PyDict::new_bound(py); "@ + keyword_items(
                ps,
            ) + "__internal__kwargs }"@
        },
    }
}

/// Whether the call passes arguments by position.
pub open spec fn has_positional(ps: Seq<ParameterView>) -> bool {
    positional_count(ps) > 0 || first_of_kind(ps, ParameterKind::VarPositional) is Some
}

/// Whether the call passes arguments by keyword.
pub open spec fn has_keyword(ps: Seq<ParameterView>) -> bool {
    keyword_count(ps) > 0 || first_of_kind(ps, ParameterKind::VarKeyword) is Some
}

/// Whether the generated function calls the object itself, not an attribute
/// of it.
pub open spec fn calls_object(typ: FunctionTypeView) -> bool {
    typ matches FunctionTypeView::Method { typ: m, .. } && (m == MethodType::Constructor || m
        == MethodType::Callable)
}

/// Whether the generated function is a method of the object it is called on.
pub open spec fn on_object(typ: FunctionTypeView) -> bool {
    typ matches FunctionTypeView::Method { typ: m, .. } && (m == MethodType::InstanceMethod || m
        == MethodType::Callable)
}

/// The call into Python on the object `target`.
pub open spec fn call_expression(f: FunctionView, target: Seq<char>) -> Seq<char> {
    let ps = f.parameters;
    if calls_object(f.typ) {
        if has_keyword(ps) {
            "::pyo3::types::PyAnyMethods::call("@ + target + ".as_any(), "@ + positional_arguments(
                ps,
            ) + ", Some(&"@ + keyword_arguments(ps) + "))"@
        } else if has_positional(ps) {
            "::pyo3::types::PyAnyMethods::call1("@ + target + ".as_any(), "@
                + positional_arguments(ps) + ")"@
        } else {
            "::pyo3::types::PyAnyMethods::call0("@ + target + ".as_any())"@
        }
    } else {
        let method = "::pyo3::intern!(py, "@ + literal(py_form(f.name.segments.last())) + ")"@;
        if has_keyword(ps) {
            "::pyo3::types::PyAnyMethods::call_method("@ + target + ".as_any(), "@ + method
                + ", "@ + positional_arguments(ps) + ", Some(&"@ + keyword_arguments(ps) + "))"@
        } else if has_positional(ps) {
            "::pyo3::types::PyAnyMethods::call_method1("@ + target + ".as_any(), "@ + method
                + ", "@ + positional_arguments(ps) + ")"@
        } else {
            "::pyo3::types::PyAnyMethods::call_method0("@ + target + ".as_any(), "@ + method
                + ")"@
        }
    }
}

/// The scope that holds a function.
pub open spec fn holder(name: PathView) -> PathView {
    PathView { leading_colon: name.leading_colon, segments: name.segments.drop_last() }
}

/// The object that the generated function calls, or calls a method of: the
/// object itself for a method of an object, the class for the other methods,
/// the module for a function. A method of unknown kind has none.
pub open spec fn call_target(f: FunctionView, importable: Seq<Seq<char>>) -> Option<Seq<char>> {
    match f.typ {
        FunctionTypeView::Method { class_path, typ: m } => if m == MethodType::InstanceMethod || m
            == MethodType::Callable {
            Some("self"@)
        } else if m == MethodType::Unknown {
            None
        } else {
            Some(import_expression(class_path, importable))
        },
        _ => Some(import_expression(holder(f.name), importable)),
    }
}

/// The name of the generated function, given the name `token` that stands
/// for the attribute: a constructor is called `new` and a call operator
/// `call`, each with a numeral behind it where the scope needs one.
pub open spec fn generated_name(f: FunctionView, token: Seq<char>, scope: Seq<Seq<char>>) -> Seq<
    char,
> {
    match f.typ {
        FunctionTypeView::Method { typ: MethodType::Callable, .. } => fresh(scope, "call"@),
        FunctionTypeView::Method { typ: MethodType::Constructor, .. } => fresh(scope, "new"@),
        _ => token,
    }
}

/// The head of the generated function.
pub open spec fn function_head(
    f: FunctionView,
    token: Seq<char>,
    scope: Seq<Seq<char>>,
    loc: Seq<LocalTypeView>,
) -> Seq<char> {
    let name = generated_name(f, token, scope);
    if on_object(f.typ) {
        "fn "@ + name + "<'py>(&'py self"@ + signature_parameters(f.parameters, loc)
            + ") -> ::pyo3::PyResult<"@ + rs_owned(f.return_annotation, loc) + ">"@
    } else if f.typ matches FunctionTypeView::Method { typ: MethodType::Constructor, .. } {
        "pub fn "@ + name + "<'py>(py: ::pyo3::marker::Python<'py>"@ + signature_parameters(
            f.parameters,
            loc,
        ) + ") -> ::pyo3::PyResult<::pyo3::Bound<'py, Self>>"@
    } else {
        "pub fn "@ + name + "<'py>(py: ::pyo3::marker::Python<'py>"@ + signature_parameters(
            f.parameters,
            loc,
        ) + ") -> ::pyo3::PyResult<"@ + rs_owned(f.return_annotation, loc) + ">"@
    }
}

/// The body of the generated function.
pub open spec fn function_body(f: FunctionView, target: Seq<char>, loc: Seq<LocalTypeView>) -> Seq<
    char,
> {
    if on_object(f.typ) {
        " {\nlet py = self.py();\n"@ + preparations(f.parameters, loc)
            + "::pyo3::types::PyAnyMethods::extract(&"@ + call_expression(f, target) + "?)\n}\n"@
    } else {
        " {\n"@ + preparations(f.parameters, loc) + "::pyo3::types::PyAnyMethods::extract(&"@
            + call_expression(f, target) + "?)\n}\n"@
    }
}

/// Whether generating the code for `f` fails: the variable of a parameter,
/// or the name picked for a constructor or call operator, is no identifier.
pub open spec fn function_fails(f: FunctionView, scope: Seq<Seq<char>>) -> bool {
    function_token(f.name.segments.last()) is Some && (!parameters_valid(f.parameters) || ((
    f.typ matches FunctionTypeView::Method { typ: m, .. } && (m == MethodType::Callable || m
        == MethodType::Constructor)) && !ident_accepted(
        generated_name(f, f.name.segments.last(), scope),
    )))
}

/// The generated code for `f` in a scope that defines the names `scope` and
/// knows the types `loc`, where generating it does not fail.
///
/// Nothing is generated for a function whose name cannot stand in generated
/// code, and nothing for a method of unknown kind. A method of an object is
/// declared and implemented; any other function is implemented only.
pub open spec fn function_code(
    f: FunctionView,
    generate_docs: bool,
    scope: Seq<Seq<char>>,
    loc: Seq<LocalTypeView>,
    importable: Seq<Seq<char>>,
) -> FunctionImplementationView {
    match function_token(f.name.segments.last()) {
        None => no_function(),
        Some(token) => match call_target(f, importable) {
            None => no_method(),
            Some(target) => {
                let head = function_head(f, token, scope, loc);
                let code = doc_attribute(generate_docs, f.docstring) + head + function_body(
                    f,
                    target,
                    loc,
                );
                if on_object(f.typ) {
                    FunctionImplementationView::Method(
                        TraitMethodView { trait_fn: head + ";\n"@, impl_fn: code },
                    )
                } else {
                    FunctionImplementationView::Function(code)
                }
            },
        },
    }
}

/// Writes `py` with an underscore in place of each character that is neither
/// a letter nor a digit.
pub fn sanitize(py: &str) -> (out: String)
    ensures
        out@ == sanitized(py@),
{
    let cs = chars_of(py);
    let mut out = String::new();
    let mut i: usize = 0;
    while i < cs.len()
        invariant
            i <= cs.len(),
            cs@ == py@,
            out@ == sanitized(py@).take(i as int),
        decreases cs.len() - i,
    {
        let c = cs[i];
        if is_alphanumeric(c) {
            push_char(&mut out, c);
        } else {
            push_char(&mut out, '_');
        }
        assert(out@ =~= sanitized(py@).take(i as int + 1));
        i += 1;
    }
    assert(sanitized(py@).take(cs.len() as int) =~= sanitized(py@));
    out
}

/// The name under which `prefix` and a sanitized form of `name` can stand in
/// generated code.
pub fn substitute_for(prefix: &str, name: &Ident) -> (id: Ident)
    ensures
        id@ == substitute(prefix@, name@),
{
    let text = String::from_str(prefix).concat(sanitize(name.as_py()).as_str());
    Ident::from_py(text.as_str())
}

/// Picks the name of the generated function for the attribute `name`.
fn function_token_of(name: &Ident) -> (r: Option<String>)
    ensures
        view_opt(r) == function_token(name@),
{
    if name.is_valid_rs() {
        if is_forbidden_function_name(name.as_py()) {
            None
        } else {
            Some(name.as_rs().to_owned())
        }
    } else {
        let alt = substitute_for("f_", name);
        if alt.is_valid_rs() {
            Some(alt.into_rs())
        } else {
            None
        }
    }
}

/// The variable that holds the argument for `p`.
fn parameter_ident(p: &Parameter) -> (id: Ident)
    ensures
        id@ == parameter_token(p@),
{
    let text = String::from_str("p_").concat(p.name.as_py());
    Ident::from_py(text.as_str())
}

/// The variables of all parameters, or the error of the parser for the first
/// that is no identifier.
fn parameter_tokens(ps: &Vec<Parameter>) -> (r: Result<Vec<String>, PyBindgenError>)
    ensures
        r is Ok == parameters_valid(views(ps@)),
        r matches Ok(v) ==> v.len() == ps.len() && forall|i: int|
            0 <= i < ps.len() ==> (#[trigger] v[i])@ == parameter_token(ps[i]@),
        r matches Err(e) ==> e is SynError,
{
    let mut out: Vec<String> = Vec::new();
    let mut i: usize = 0;
    while i < ps.len()
        invariant
            i <= ps.len(),
            out.len() == i,
            forall|j: int| 0 <= j < i ==> (#[trigger] out[j])@ == parameter_token(ps[j]@),
            forall|j: int|
                0 <= j < i ==> ident_accepted(parameter_token(#[trigger] views(ps@)[j])),
        decreases ps.len() - i,
    {
        assert(views(ps@)[i as int] == ps@[i as int]@);
        match parameter_ident(&ps[i]).to_token() {
            Ok(t) => {
                out.push(t);
            },
            Err(e) => {
                return Err(e);
            },
        }
        i += 1;
    }
    Ok(out)
}

/// Writes the parameters as they stand in the head of the function.
fn write_signature(ps: &Vec<Parameter>, tokens: &Vec<String>, local_types: &LocalTypes) -> (s:
    String)
    requires
        tokens.len() == ps.len(),
        forall|i: int| 0 <= i < ps.len() ==> (#[trigger] tokens[i])@ == parameter_token(ps[i]@),
    ensures
        s@ == signature_parameters(views(ps@), local_types@),
{
    let ghost all = views(ps@);
    let mut s = String::new();
    let mut i: usize = 0;
    assert(all.take(0) =~= Seq::<ParameterView>::empty());
    while i < ps.len()
        invariant
            i <= ps.len(),
            all == views(ps@),
            tokens.len() == ps.len(),
            forall|i: int| 0 <= i < ps.len() ==> (#[trigger] tokens[i])@ == parameter_token(ps[i]@),
            s@ == signature_parameters(all.take(i as int), local_types@),
        decreases ps.len() - i,
    {
        assert(all.take(i as int + 1).drop_last() =~= all.take(i as int));
        assert(all.take(i as int + 1).last() == ps@[i as int]@);
        let p = &ps[i];
        s.append(", ");
        s.append(tokens[i].as_str());
        s.append(": ");
        let t = p.annotation.into_rs_borrowed(local_types);
        if p.has_default {
            let mut wrapped = String::from_str("Option<");
            wrapped.append(t.as_str());
            wrapped.append(">");
            s.append(wrapped.as_str());
        } else {
            s.append(t.as_str());
        }
        i += 1;
    }
    assert(all.take(ps.len() as int) =~= all);
    s
}

/// Writes the statements that prepare all arguments.
fn write_preparations(ps: &Vec<Parameter>, tokens: &Vec<String>, local_types: &LocalTypes) -> (s:
    String)
    requires
        tokens.len() == ps.len(),
        forall|i: int| 0 <= i < ps.len() ==> (#[trigger] tokens[i])@ == parameter_token(ps[i]@),
    ensures
        s@ == preparations(views(ps@), local_types@),
{
    let ghost all = views(ps@);
    let mut s = String::new();
    let mut i: usize = 0;
    assert(all.take(0) =~= Seq::<ParameterView>::empty());
    while i < ps.len()
        invariant
            i <= ps.len(),
            all == views(ps@),
            tokens.len() == ps.len(),
            forall|i: int| 0 <= i < ps.len() ==> (#[trigger] tokens[i])@ == parameter_token(ps[i]@),
            s@ == preparations(all.take(i as int), local_types@),
        decreases ps.len() - i,
    {
        assert(all.take(i as int + 1).drop_last() =~= all.take(i as int));
        assert(all.take(i as int + 1).last() == ps@[i as int]@);
        let p = &ps[i];
        let bind = p.annotation.preprocess_borrowed(tokens[i].as_str(), local_types);
        if p.has_default {
            let mut one = String::from_str("let optional_");
            one.append(tokens[i].as_str());
            one.append(" = ");
            one.append(tokens[i].as_str());
            one.append(".is_some();\n");
            one.append(bind.as_str());
            s.append(one.as_str());
        } else {
            s.append(bind.as_str());
        }
        i += 1;
    }
    assert(all.take(ps.len() as int) =~= all);
    s
}

/// Writes the items of the tuple of positional arguments, and counts them.
fn write_positional_items(ps: &Vec<Parameter>, tokens: &Vec<String>) -> (r: (String, usize))
    requires
        tokens.len() == ps.len(),
        forall|i: int| 0 <= i < ps.len() ==> (#[trigger] tokens[i])@ == parameter_token(ps[i]@),
    ensures
        r.0@ == positional_items(views(ps@)),
        r.1 == positional_count(views(ps@)),
{
    let ghost all = views(ps@);
    let mut s = String::new();
    let mut n: usize = 0;
    let mut i: usize = 0;
    assert(all.take(0) =~= Seq::<ParameterView>::empty());
    while i < ps.len()
        invariant
            i <= ps.len(),
            n <= i,
            all == views(ps@),
            tokens.len() == ps.len(),
            forall|i: int| 0 <= i < ps.len() ==> (#[trigger] tokens[i])@ == parameter_token(ps[i]@),
            s@ == positional_items(all.take(i as int)),
            n == positional_count(all.take(i as int)),
        decreases ps.len() - i,
    {
        assert(all.take(i as int + 1).drop_last() =~= all.take(i as int));
        assert(all.take(i as int + 1).last() == ps@[i as int]@);
        if ps[i].kind.is_positional() {
            let mut one = String::from_str("::pyo3::ToPyObject::to_object(&");
            one.append(tokens[i].as_str());
            one.append(", py), ");
            s.append(one.as_str());
            assert(s@ =~= positional_items(all.take(i as int)) + "::pyo3::ToPyObject::to_object(&"@
                + parameter_token(ps@[i as int]@) + ", py), "@);
            n += 1;
        }
        i += 1;
    }
    assert(all.take(ps.len() as int) =~= all);
    (s, n)
}

/// Writes the statements that pass the keyword arguments, and counts them.
fn write_keyword_items(ps: &Vec<Parameter>, tokens: &Vec<String>) -> (r: (String, usize))
    requires
        tokens.len() == ps.len(),
        forall|i: int| 0 <= i < ps.len() ==> (#[trigger] tokens[i])@ == parameter_token(ps[i]@),
    ensures
        r.0@ == keyword_items(views(ps@)),
        r.1 == keyword_count(views(ps@)),
{
    let ghost all = views(ps@);
    let mut s = String::new();
    let mut n: usize = 0;
    let mut i: usize = 0;
    assert(all.take(0) =~= Seq::<ParameterView>::empty());
    while i < ps.len()
        invariant
            i <= ps.len(),
            n <= i,
            all == views(ps@),
            tokens.len() == ps.len(),
            forall|i: int| 0 <= i < ps.len() ==> (#[trigger] tokens[i])@ == parameter_token(ps[i]@),
            s@ == keyword_items(all.take(i as int)),
            n == keyword_count(all.take(i as int)),
        decreases ps.len() - i,
    {
        assert(all.take(i as int + 1).drop_last() =~= all.take(i as int));
        assert(all.take(i as int + 1).last() == ps@[i as int]@);
        let p = &ps[i];
        if p.kind == ParameterKind::KeywordOnly {
            let lit = string_literal(p.name.as_py());
            let mut one = String::new();
            if p.has_default {
                one.append("if optional_");
                one.append(tokens[i].as_str());
                one.append(
                    " { ::pyo3::types::PyDictMethods::set_item(&__internal__kwargs, ::pyo3::intern!(py, ",
                );
                one.append(lit.as_str());
                one.append("), ");
                one.append(tokens[i].as_str());
                one.append("); }; ");
                assert(one@ =~= keyword_item(p@));
            } else {
                one.append(
                    "::pyo3::types::PyDictMethods::set_item(&__internal__kwargs, ::pyo3::intern!(py, ",
                );
                one.append(lit.as_str());
                one.append("), ");
                one.append(tokens[i].as_str());
                one.append("); ");
                assert(one@ =~= keyword_item(p@));
            }
            s.append(one.as_str());
            n += 1;
        }
        i += 1;
    }
    assert(all.take(ps.len() as int) =~= all);
    (s, n)
}

/// The variable of the first parameter of kind `kind`.
fn first_token_of_kind(ps: &Vec<Parameter>, tokens: &Vec<String>, kind: ParameterKind) -> (r:
    Option<String>)
    requires
        tokens.len() == ps.len(),
        forall|i: int| 0 <= i < ps.len() ==> (#[trigger] tokens[i])@ == parameter_token(ps[i]@),
    ensures
        view_opt(r) == first_of_kind(views(ps@), kind),
{
    let ghost all = views(ps@);
    let mut i: usize = 0;
    assert(all.skip(0) =~= all);
    while i < ps.len()
        invariant
            i <= ps.len(),
            all == views(ps@),
            tokens.len() == ps.len(),
            forall|i: int| 0 <= i < ps.len() ==> (#[trigger] tokens[i])@ == parameter_token(ps[i]@),
            first_of_kind(all, kind) == first_of_kind(all.skip(i as int), kind),
        decreases ps.len() - i,
    {
        assert(all.skip(i as int)[0] == ps@[i as int]@);
        if ps[i].kind == kind {
            return Some(tokens[i].clone());
        }
        assert(all.skip(i as int).skip(1) =~= all.skip(i as int + 1));
        i += 1;
    }
    None
}

/// Writes the expression for the positional arguments of the call.
fn write_positional(ps: &Vec<Parameter>, tokens: &Vec<String>) -> (r: (String, bool))
    requires
        tokens.len() == ps.len(),
        forall|i: int| 0 <= i < ps.len() ==> (#[trigger] tokens[i])@ == parameter_token(ps[i]@),
    ensures
        r.0@ == positional_arguments(views(ps@)),
        r.1 == has_positional(views(ps@)),
{
    let (items, n) = write_positional_items(ps, tokens);
    match first_token_of_kind(ps, tokens, ParameterKind::VarPositional) {
        Some(v) => {
            if n == 0 {
                (v, true)
            } else {
                let mut s = String::from_str("{ let mut __internal__args = Vec::with_capacity(");
                push_decimal(&mut s, n);
                s.append("usize + ::pyo3::types::PyTupleMethods::len(");
                s.append(v.as_str());
                s.append(")); __internal__args.extend([");
                s.append(items.as_str());
                s.append("]); __internal__args.extend(::pyo3::types::PyTupleMethods::iter(");
                s.append(v.as_str());
                s.append(
                    ").map(|__internal__arg| ::pyo3::ToPyObject::to_object(&__internal__arg, py))); ::pyo3::types::PyTuple::new_bound(py, __internal__args) }",
                );
                (s, true)
            }
        },
        None => {
            if n == 0 {
                (String::from_str("()"), false)
            } else {
                let mut s = String::from_str("::pyo3::types::PyTuple::new_bound(py, [");
                s.append(items.as_str());
                s.append("])");
                (s, true)
            }
        },
    }
}

/// Writes the expression for the keyword arguments of the call.
fn write_keyword(ps: &Vec<Parameter>, tokens: &Vec<String>) -> (r: (String, bool))
    requires
        tokens.len() == ps.len(),
        forall|i: int| 0 <= i < ps.len() ==> (#[trigger] tokens[i])@ == parameter_token(ps[i]@),
    ensures
        r.0@ == keyword_arguments(views(ps@)),
        r.1 == has_keyword(views(ps@)),
{
    let (items, n) = write_keyword_items(ps, tokens);
    match first_token_of_kind(ps, tokens, ParameterKind::VarKeyword) {
        Some(v) => {
            if n == 0 {
                (v, true)
            } else {
                let mut s = String::from_str("{ let __internal__kwargs = ");
                s.append(v.as_str());
                s.append("; ");
                s.append(items.as_str());
                s.append("__internal__kwargs }");
                (s, true)
            }
        },
        None => {
            if n == 0 {
                (String::from_str("::pyo3::types::PyDict::new_bound(py)"), false)
            } else {
                let mut s = String::from_str(
                    "{ let __internal__kwargs = ::pyo3::types::PyDict::new_bound(py); ",
                );
                s.append(items.as_str());
                s.append("__internal__kwargs }");
                (s, true)
            }
        },
    }
}

/// Whether the paths of a function say where it is found: a function lies
/// in a module, and a method that is not called on an object in a class.
pub open spec fn function_placed(f: FunctionView) -> bool {
    &&& f.name.segments.len() > 0
    &&& match f.typ {
        FunctionTypeView::Method { class_path, typ: m } => m == MethodType::InstanceMethod || m
            == MethodType::Callable || m == MethodType::Unknown || class_path.segments.len() > 0,
        _ => f.name.segments.len() > 1,
    }
}

impl Function {
    /// Whether the generated function calls the object itself.
    fn is_call_of_object(&self) -> (r: bool)
        ensures
            r == calls_object(self@.typ),
    {
        match &self.typ {
            FunctionType::Method { class_path, typ } => *typ == MethodType::Constructor || *typ
                == MethodType::Callable,
            _ => false,
        }
    }

    /// Whether the generated function is a method of the object it is called
    /// on.
    fn is_on_object(&self) -> (r: bool)
        ensures
            r == on_object(self@.typ),
    {
        match &self.typ {
            FunctionType::Method { class_path, typ } => *typ == MethodType::InstanceMethod || *typ
                == MethodType::Callable,
            _ => false,
        }
    }

    /// Whether the function is the constructor of its class.
    fn is_constructor(&self) -> (r: bool)
        ensures
            r == (self@.typ matches FunctionTypeView::Method {
                typ: MethodType::Constructor,
                ..
            }),
    {
        match &self.typ {
            FunctionType::Method { class_path, typ } => *typ == MethodType::Constructor,
            _ => false,
        }
    }

    /// Whether the function is the call operator of its class.
    fn is_callable(&self) -> (r: bool)
        ensures
            r == (self@.typ matches FunctionTypeView::Method { typ: MethodType::Callable, .. }),
    {
        match &self.typ {
            FunctionType::Method { class_path, typ } => *typ == MethodType::Callable,
            _ => false,
        }
    }

    /// Writes the call into Python on the object `target`.
    fn write_call(&self, target: &str, tokens: &Vec<String>) -> (s: String)
        requires
            self@.name.segments.len() > 0,
            tokens.len() == self.parameters.len(),
            forall|i: int|
                0 <= i < self.parameters.len() ==> (#[trigger] tokens[i])@ == parameter_token(
                    self.parameters[i]@,
                ),
        ensures
            s@ == call_expression(self@, target@),
    {
        let (pos, has_pos) = write_positional(&self.parameters, tokens);
        let (kw, has_kw) = write_keyword(&self.parameters, tokens);
        if self.is_call_of_object() {
            if has_kw {
                let mut s = String::from_str("::pyo3::types::PyAnyMethods::call(");
                s.append(target);
                s.append(".as_any(), ");
                s.append(pos.as_str());
                s.append(", Some(&");
                s.append(kw.as_str());
                s.append("))");
                s
            } else if has_pos {
                let mut s = String::from_str("::pyo3::types::PyAnyMethods::call1(");
                s.append(target);
                s.append(".as_any(), ");
                s.append(pos.as_str());
                s.append(")");
                s
            } else {
                let mut s = String::from_str("::pyo3::types::PyAnyMethods::call0(");
                s.append(target);
                s.append(".as_any())");
                s
            }
        } else {
            let mut method = String::from_str("::pyo3::intern!(py, ");
            method.append(string_literal(self.name.name().as_py()).as_str());
            method.append(")");
            if has_kw {
                let mut s = String::from_str("::pyo3::types::PyAnyMethods::call_method(");
                s.append(target);
                s.append(".as_any(), ");
                s.append(method.as_str());
                s.append(", ");
                s.append(pos.as_str());
                s.append(", Some(&");
                s.append(kw.as_str());
                s.append("))");
                s
            } else if has_pos {
                let mut s = String::from_str("::pyo3::types::PyAnyMethods::call_method1(");
                s.append(target);
                s.append(".as_any(), ");
                s.append(method.as_str());
                s.append(", ");
                s.append(pos.as_str());
                s.append(")");
                s
            } else {
                let mut s = String::from_str("::pyo3::types::PyAnyMethods::call_method0(");
                s.append(target);
                s.append(".as_any(), ");
                s.append(method.as_str());
                s.append(")");
                s
            }
        }
    }

    /// Writes the object that the generated function calls.
    fn write_target(&self, importable: &Vec<String>) -> (r: Option<String>)
        requires
            self.callable_by_path(),
        ensures
            view_opt(r) == call_target(self@, views(importable@)),
    {
        match &self.typ {
            FunctionType::Method { class_path, typ } => {
                if *typ == MethodType::InstanceMethod || *typ == MethodType::Callable {
                    Some(String::from_str("self"))
                } else if *typ == MethodType::Unknown {
                    None
                } else {
                    Some(class_path.import_quote(importable))
                }
            },
            _ => {
                match self.name.parent() {
                    Some(parent) => Some(parent.import_quote(importable)),
                    None => None,
                }
            },
        }
    }

    /// Whether the paths of the function say where it is found.
    pub open spec fn callable_by_path(&self) -> bool {
        function_placed(self@)
    }

    /// Tests whether the paths of the function say where it is found.
    pub fn is_callable_by_path(&self) -> (r: bool)
        ensures
            r == self.callable_by_path(),
    {
        if self.name.len() == 0 {
            return false;
        }
        match &self.typ {
            FunctionType::Method { class_path, typ } => *typ == MethodType::InstanceMethod || *typ
                == MethodType::Callable || *typ == MethodType::Unknown || class_path.len() > 0,
            _ => self.name.len() > 1,
        }
    }

    /// Writes the head of the generated function.
    fn write_head(&self, name: &str, signature: &str, local_types: &LocalTypes) -> (s: String)
        ensures
            s@ == if on_object(self@.typ) {
                "fn "@ + name@ + "<'py>(&'py self"@ + signature@ + ") -> ::pyo3::PyResult<"@
                    + rs_owned(self@.return_annotation, local_types@) + ">"@
            } else if self@.typ matches FunctionTypeView::Method {
                typ: MethodType::Constructor,
                ..
            } {
                "pub fn "@ + name@ + "<'py>(py: ::pyo3::marker::Python<'py>"@ + signature@
                    + ") -> ::pyo3::PyResult<::pyo3::Bound<'py, Self>>"@
            } else {
                "pub fn "@ + name@ + "<'py>(py: ::pyo3::marker::Python<'py>"@ + signature@
                    + ") -> ::pyo3::PyResult<"@ + rs_owned(self@.return_annotation, local_types@)
                    + ">"@
            },
    {
        if self.is_on_object() {
            let mut s = String::from_str("fn ");
            s.append(name);
            s.append("<'py>(&'py self");
            s.append(signature);
            s.append(") -> ::pyo3::PyResult<");
            s.append(self.return_annotation.into_rs_owned(local_types).as_str());
            s.append(">");
            s
        } else if self.is_constructor() {
            let mut s = String::from_str("pub fn ");
            s.append(name);
            s.append("<'py>(py: ::pyo3::marker::Python<'py>");
            s.append(signature);
            s.append(") -> ::pyo3::PyResult<::pyo3::Bound<'py, Self>>");
            s
        } else {
            let mut s = String::from_str("pub fn ");
            s.append(name);
            s.append("<'py>(py: ::pyo3::marker::Python<'py>");
            s.append(signature);
            s.append(") -> ::pyo3::PyResult<");
            s.append(self.return_annotation.into_rs_owned(local_types).as_str());
            s.append(">");
            s
        }
    }

    /// Writes the code that calls the function, for a scope that defines the
    /// names `scoped_function_idents`, knows the types `local_types` and can
    /// import the modules `importable`.
    pub fn generate(
        &self,
        cfg: &Config,
        scoped_function_idents: &Vec<Ident>,
        local_types: &LocalTypes,
        importable: &Vec<String>,
    ) -> (r: Result<FunctionImplementation, PyBindgenError>)
        requires
            self.callable_by_path(),
            scoped_function_idents.len() < usize::MAX,
        ensures
            r is Err == function_fails(self@, views(scoped_function_idents@)),
            r matches Ok(code) ==> code@ == function_code(
                self@,
                cfg@.generate_docs,
                views(scoped_function_idents@),
                local_types@,
                views(importable@),
            ),
            r matches Err(e) ==> e is SynError,
    {
        let token = match function_token_of(self.name.name()) {
            Some(t) => t,
            None => {
                return Ok(FunctionImplementation::empty_function());
            },
        };
        let tokens = match parameter_tokens(&self.parameters) {
            Ok(t) => t,
            Err(e) => {
                return Err(e);
            },
        };
        let name = if self.is_callable() {
            match fresh_name("call", scoped_function_idents).to_token() {
                Ok(t) => t,
                Err(e) => {
                    return Err(e);
                },
            }
        } else if self.is_constructor() {
            match fresh_name("new", scoped_function_idents).to_token() {
                Ok(t) => t,
                Err(e) => {
                    return Err(e);
                },
            }
        } else {
            token
        };
        let target = match self.write_target(importable) {
            Some(t) => t,
            None => {
                return Ok(FunctionImplementation::empty_method());
            },
        };
        let signature = write_signature(&self.parameters, &tokens, local_types);
        let head = self.write_head(name.as_str(), signature.as_str(), local_types);
        let preparations = write_preparations(&self.parameters, &tokens, local_types);
        let call = self.write_call(target.as_str(), &tokens);
        let mut code = doc_attribute_of(cfg, &self.docstring);
        code.append(head.as_str());
        let mut body = if self.is_on_object() {
            String::from_str(" {\nlet py = self.py();\n")
        } else {
            String::from_str(" {\n")
        };
        body.append(preparations.as_str());
        body.append("::pyo3::types::PyAnyMethods::extract(&");
        body.append(call.as_str());
        body.append("?)\n}\n");
        code.append(body.as_str());
        if self.is_on_object() {
            let mut trait_fn = head;
            trait_fn.append(";\n");
            Ok(FunctionImplementation::Method(TraitMethod { trait_fn, impl_fn: code }))
        } else {
            Ok(FunctionImplementation::Function(code))
        }
    }
}

/// Whether an attribute of a scope with the names `scope` is called `py` in
/// Python.
pub open spec fn scope_defines(scope: Seq<Seq<char>>, py: Seq<char>) -> bool {
    exists|k: int| 0 <= k < scope.len() && py_form(#[trigger] scope[k]) == py
}

/// In a scope that already defines `new` and `new1` and does not define
/// `new2`, the constructor is generated under the name `new2`: that is its
/// name in Python whatever Rust makes of it, and, `new2` being an identifier,
/// the name under which the generated code declares it.
pub proof fn lemma_constructor_after_two(
    f: FunctionView,
    generate_docs: bool,
    scope: Seq<Seq<char>>,
    loc: Seq<LocalTypeView>,
    importable: Seq<Seq<char>>,
)
    requires
        f.typ matches FunctionTypeView::Method { typ: MethodType::Constructor, .. },
        scope_defines(scope, "new"@),
        scope_defines(scope, "new1"@),
        !scope_defines(scope, "new2"@),
    ensures
        py_form(generated_name(f, f.name.segments.last(), scope)) == "new2"@,
        ident_accepted("new2"@) ==> generated_name(f, f.name.segments.last(), scope)
            == "new2"@,
        ident_accepted("new2"@) && function_token(f.name.segments.last()) is Some
            && call_target(f, importable) is Some ==> function_code(
            f,
            generate_docs,
            scope,
            loc,
            importable,
        ) == FunctionImplementationView::Function(
            doc_attribute(generate_docs, f.docstring) + ("pub fn "@ + "new2"@
                + "<'py>(py: ::pyo3::marker::Python<'py>"@ + signature_parameters(
                f.parameters,
                loc,
            ) + ") -> ::pyo3::PyResult<::pyo3::Bound<'py, Self>>"@) + function_body(
                f,
                call_target(f, importable)->0,
                loc,
            ),
        ),
        ident_accepted("new2"@) && parameters_valid(f.parameters) ==> !function_fails(
            f,
            scope,
        ),
{
    reveal_strlit("new");
    reveal_strlit("new1");
    reveal_strlit("new2");
    reveal_strlit("get_type");
    reveal_strlit("obj");
    reveal_strlit("py");
    reveal_strlit("repr");
    reveal_strlit("str");
    let base = "new"@;
    reveal_with_fuel(decimal, 2);
    assert(base + decimal(1) =~= "new1"@);
    assert(base + decimal(2) =~= "new2"@);
    assert(py_form(rs_form("new"@)) =~= "new"@);
    assert(py_form(rs_form("new1"@)) =~= "new1"@);
    assert(py_form(rs_form("new2"@)) =~= "new2"@);
    assert(py_form(candidate(base, 0)) == "new"@);
    assert(py_form(candidate(base, 1)) == "new1"@);
    assert(py_form(candidate(base, 2)) == "new2"@);
    assert("new"@.len() == 3 && "new1"@.len() == 4);
    assert("new"@[0] == 'n');
    assert("new1"@[0] == 'n');
    assert("new2"@[0] == 'n');
    let a = choose|k: int| 0 <= k < scope.len() && py_form(#[trigger] scope[k]) == "new"@;
    assert(same_ident(scope[a], candidate(base, 0)));
    let b = choose|k: int| 0 <= k < scope.len() && py_form(#[trigger] scope[k]) == "new1"@;
    assert(same_ident(scope[b], candidate(base, 1)));
    assert(!forbidden_function_name("new"@));
    assert(!forbidden_function_name("new1"@));
    assert(!forbidden_function_name("new2"@));
    assert(!taken(scope, candidate(base, 2))) by {
        if exists|k: int| 0 <= k < scope.len() && same_ident(#[trigger] scope[k], candidate(base, 2)) {
            let k = choose|k: int|
                0 <= k < scope.len() && same_ident(#[trigger] scope[k], candidate(base, 2));
            assert(py_form(scope[k]) == "new2"@);
        }
    }
    lemma_fresh_after_two(scope, base);
}

} // verus!
