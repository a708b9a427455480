//! Reading a type from the text of an annotation.

use crate::text::{
    chars_eq, chars_of, copy_range, ends_with, has_prefix, has_suffix, push_item, regroup,
    regrouped, split_at_char, split_char, starts_with, string_of, trim, trimmed, views,
};
use crate::typing::{Type, TypeView};
use vstd::prelude::*;

verus! {

/// The type that a name stands for by itself, where it is one of the names
/// that are known. The names that are never bound map to `PyAny`.
pub open spec fn simple_type(s: Seq<char>) -> Option<TypeView> {
    if s == "Any"@ {
        Some(TypeView::PyAny)
    } else if s == "bool"@ {
        Some(TypeView::PyBool)
    } else if s == "bytearray"@ {
        Some(TypeView::PyByteArray)
    } else if s == "bytes"@ {
        Some(TypeView::PyBytes)
    } else if s == "float"@ {
        Some(TypeView::PyFloat)
    } else if s == "int"@ {
        Some(TypeView::PyLong)
    } else if s == "str"@ {
        Some(TypeView::PyString)
    } else if s == "Union"@ {
        Some(TypeView::Union(seq![TypeView::Unknown]))
    } else if s == ""@ {
        Some(TypeView::PyNone)
    } else if s == "None"@ {
        Some(TypeView::PyNone)
    } else if s == "NoneType"@ {
        Some(TypeView::PyNone)
    } else if s == "dict"@ {
        Some(
            TypeView::PyDict {
                key_type: Box::new(TypeView::Unknown),
                value_type: Box::new(TypeView::Unknown),
            },
        )
    } else if s == "Dict"@ {
        Some(
            TypeView::PyDict {
                key_type: Box::new(TypeView::Unknown),
                value_type: Box::new(TypeView::Unknown),
            },
        )
    } else if s == "Mapping"@ {
        Some(
            TypeView::PyDict {
                key_type: Box::new(TypeView::Unknown),
                value_type: Box::new(TypeView::Unknown),
            },
        )
    } else if s == "list"@ {
        Some(TypeView::PyList(Box::new(TypeView::Unknown)))
    } else if s == "Sequence"@ {
        Some(TypeView::PyList(Box::new(TypeView::Unknown)))
    } else if s == "Iterable"@ {
        Some(TypeView::PyList(Box::new(TypeView::Unknown)))
    } else if s == "Iterator"@ {
        Some(TypeView::PyList(Box::new(TypeView::Unknown)))
    } else if s == "tuple"@ {
        Some(TypeView::PyTuple(seq![TypeView::Unknown]))
    } else if s == "ipaddress.IPv4Address"@ {
        Some(TypeView::IpV4Addr)
    } else if s == "ipaddress.IPv6Address"@ {
        Some(TypeView::IpV6Addr)
    } else if s == "os.PathLike"@ {
        Some(TypeView::Path)
    } else if s == "pathlib.Path"@ {
        Some(TypeView::Path)
    } else if s == "slice"@ {
        Some(TypeView::PySlice)
    } else if s == "complex"@ {
        Some(TypeView::PyComplex)
    } else if s == "datetime.date"@ {
        Some(TypeView::PyDate)
    } else if s == "datetime.datetime"@ {
        Some(TypeView::PyDateTime)
    } else if s == "timedelta"@ {
        Some(TypeView::PyDelta)
    } else if s == "datetime.time"@ {
        Some(TypeView::PyTime)
    } else if s == "datetime.tzinfo"@ {
        Some(TypeView::PyTzInfo)
    } else if s == "capsule"@ {
        Some(TypeView::PyCapsule)
    } else if s == "cfunction"@ {
        Some(TypeView::PyCFunction)
    } else if s == "code"@ {
        Some(TypeView::PyCode)
    } else if s == "Ellipsis"@ {
        Some(TypeView::PyEllipsis)
    } else if s == "..."@ {
        Some(TypeView::PyEllipsis)
    } else if s == "frame"@ {
        Some(TypeView::PyFrame)
    } else if s == "function"@ {
        Some(
            TypeView::PyFunction {
                param_types: seq![TypeView::PyEllipsis],
                return_annotation: Box::new(TypeView::Unknown),
            },
        )
    } else if s == "Callable"@ {
        Some(
            TypeView::PyFunction {
                param_types: seq![TypeView::PyEllipsis],
                return_annotation: Box::new(TypeView::Unknown),
            },
        )
    } else if s == "callable"@ {
        Some(
            TypeView::PyFunction {
                param_types: seq![TypeView::PyEllipsis],
                return_annotation: Box::new(TypeView::Unknown),
            },
        )
    } else if s == "module"@ {
        Some(TypeView::PyModule)
    } else if s == "super"@ {
        Some(TypeView::PySuper)
    } else if s == "traceback"@ {
        Some(TypeView::PyTraceback)
    } else if s == "_collections._tuplegetter"@ {
        Some(TypeView::PyAny)
    } else if s == "AsyncState"@ {
        Some(TypeView::PyAny)
    } else if s == "getset_descriptor"@ {
        Some(TypeView::PyAny)
    } else if s == "member_descriptor"@ {
        Some(TypeView::PyAny)
    } else if s == "method_descriptor"@ {
        Some(TypeView::PyAny)
    } else if s == "property"@ {
        Some(TypeView::PyAny)
    } else if s == "py"@ {
        Some(TypeView::PyAny)
    } else {
        None
    }
}

/// Whether `s` is `text`, character by character.
fn is_text(s: &Vec<char>, text: &str) -> (r: bool)
    ensures
        r == (s@ == text@),
{
    let t = chars_of(text);
    chars_eq(s, &t)
}

/// The list that holds `t` alone.
fn one_type(t: Type) -> (v: Vec<Type>)
    ensures
        views(v@) == seq![t@],
{
    let mut v: Vec<Type> = Vec::new();
    push_item(&mut v, t);
    assert(views(v@) =~= seq![t@]);
    v
}

/// Looks `s` up among the names that stand for a type by themselves.
fn simple_type_of(s: &Vec<char>) -> (r: Option<Type>)
    ensures
        r is Some == simple_type(s@) is Some,
        r matches Some(t) ==> simple_type(s@) == Some(t@),
{
    if is_text(s, "Any") {
        Some(Type::PyAny)
    } else if is_text(s, "bool") {
        Some(Type::PyBool)
    } else if is_text(s, "bytearray") {
        Some(Type::PyByteArray)
    } else if is_text(s, "bytes") {
        Some(Type::PyBytes)
    } else if is_text(s, "float") {
        Some(Type::PyFloat)
    } else if is_text(s, "int") {
        Some(Type::PyLong)
    } else if is_text(s, "str") {
        Some(Type::PyString)
    } else if is_text(s, "Union") {
        let t = Type::union_of(one_type(Type::Unknown));
        Some(t)
    } else if is_text(s, "") {
        Some(Type::PyNone)
    } else if is_text(s, "None") {
        Some(Type::PyNone)
    } else if is_text(s, "NoneType") {
        Some(Type::PyNone)
    } else if is_text(s, "dict") {
        Some(
            Type::PyDict {
                key_type: Box::new(Type::Unknown),
                value_type: Box::new(Type::Unknown),
            },
        )
    } else if is_text(s, "Dict") {
        Some(
            Type::PyDict {
                key_type: Box::new(Type::Unknown),
                value_type: Box::new(Type::Unknown),
            },
        )
    } else if is_text(s, "Mapping") {
        Some(
            Type::PyDict {
                key_type: Box::new(Type::Unknown),
                value_type: Box::new(Type::Unknown),
            },
        )
    } else if is_text(s, "list") {
        Some(Type::PyList(Box::new(Type::Unknown)))
    } else if is_text(s, "Sequence") {
        Some(Type::PyList(Box::new(Type::Unknown)))
    } else if is_text(s, "Iterable") {
        Some(Type::PyList(Box::new(Type::Unknown)))
    } else if is_text(s, "Iterator") {
        Some(Type::PyList(Box::new(Type::Unknown)))
    } else if is_text(s, "tuple") {
        let t = Type::tuple_of(one_type(Type::Unknown));
        Some(t)
    } else if is_text(s, "ipaddress.IPv4Address") {
        Some(Type::IpV4Addr)
    } else if is_text(s, "ipaddress.IPv6Address") {
        Some(Type::IpV6Addr)
    } else if is_text(s, "os.PathLike") {
        Some(Type::Path)
    } else if is_text(s, "pathlib.Path") {
        Some(Type::Path)
    } else if is_text(s, "slice") {
        Some(Type::PySlice)
    } else if is_text(s, "complex") {
        Some(Type::PyComplex)
    } else if is_text(s, "datetime.date") {
        Some(Type::PyDate)
    } else if is_text(s, "datetime.datetime") {
        Some(Type::PyDateTime)
    } else if is_text(s, "timedelta") {
        Some(Type::PyDelta)
    } else if is_text(s, "datetime.time") {
        Some(Type::PyTime)
    } else if is_text(s, "datetime.tzinfo") {
        Some(Type::PyTzInfo)
    } else if is_text(s, "capsule") {
        Some(Type::PyCapsule)
    } else if is_text(s, "cfunction") {
        Some(Type::PyCFunction)
    } else if is_text(s, "code") {
        Some(Type::PyCode)
    } else if is_text(s, "Ellipsis") {
        Some(Type::PyEllipsis)
    } else if is_text(s, "...") {
        Some(Type::PyEllipsis)
    } else if is_text(s, "frame") {
        Some(Type::PyFrame)
    } else if is_text(s, "function") {
        let t = Type::function_of(one_type(Type::PyEllipsis), Type::Unknown);
        Some(t)
    } else if is_text(s, "Callable") {
        let t = Type::function_of(one_type(Type::PyEllipsis), Type::Unknown);
        Some(t)
    } else if is_text(s, "callable") {
        let t = Type::function_of(one_type(Type::PyEllipsis), Type::Unknown);
        Some(t)
    } else if is_text(s, "module") {
        Some(Type::PyModule)
    } else if is_text(s, "super") {
        Some(Type::PySuper)
    } else if is_text(s, "traceback") {
        Some(Type::PyTraceback)
    } else if is_text(s, "_collections._tuplegetter") {
        Some(Type::PyAny)
    } else if is_text(s, "AsyncState") {
        Some(Type::PyAny)
    } else if is_text(s, "getset_descriptor") {
        Some(Type::PyAny)
    } else if is_text(s, "member_descriptor") {
        Some(Type::PyAny)
    } else if is_text(s, "method_descriptor") {
        Some(Type::PyAny)
    } else if is_text(s, "property") {
        Some(Type::PyAny)
    } else if is_text(s, "py") {
        Some(Type::PyAny)
    } else {
        None
    }
}

/// The arguments that `sep` separates in `s`: the pieces between the
/// separators, each without the white space around it, where a separator
/// inside square brackets separates nothing.
pub open spec fn arguments(s: Seq<char>, sep: char) -> Seq<Seq<char>> {
    regrouped(split_at_char(s, sep, Seq::empty()).map_values(|p: Seq<char>| trim(p)), sep, 0)
}

/// Whether `s` is some text between `pre` and `suf`.
pub open spec fn wrapped(s: Seq<char>, pre: Seq<char>, suf: Seq<char>) -> bool {
    has_prefix(s, pre) && has_suffix(s, suf) && pre.len() + suf.len() <= s.len()
}

/// The text of `s` between `pre` and `suf`.
pub open spec fn unwrapped(s: Seq<char>, pre: Seq<char>, suf: Seq<char>) -> Seq<char> {
    s.subrange(pre.len() as int, s.len() - suf.len())
}

/// The item type that `s` names where it has the form of a list, a sequence,
/// an iterable or an iterator of items.
pub open spec fn list_item(s: Seq<char>) -> Option<Seq<char>> {
    if wrapped(s, "list["@, "]"@) {
        Some(unwrapped(s, "list["@, "]"@))
    } else if wrapped(s, "Sequence["@, "]"@) {
        Some(unwrapped(s, "Sequence["@, "]"@))
    } else if wrapped(s, "Iterable["@, "]"@) {
        Some(unwrapped(s, "Iterable["@, "]"@))
    } else if wrapped(s, "Iterator["@, "]"@) {
        Some(unwrapped(s, "Iterator["@, "]"@))
    } else {
        None
    }
}

/// The text that `s` holds where it only wraps or qualifies another
/// annotation: `type[..]`, the printed form of a class or of an enum, and a
/// name qualified by `typing`, `collections.abc` or `collections`.
pub open spec fn held(s: Seq<char>) -> Option<Seq<char>> {
    if wrapped(s, "type["@, "]"@) {
        Some(unwrapped(s, "type["@, "]"@))
    } else if wrapped(s, "<class '"@, "'>"@) {
        Some(unwrapped(s, "<class '"@, "'>"@))
    } else if wrapped(s, "<enum '"@, "'>"@) {
        Some(unwrapped(s, "<enum '"@, "'>"@))
    } else if wrapped(s, "typing."@, ""@) {
        Some(unwrapped(s, "typing."@, ""@))
    } else if wrapped(s, "collections.abc."@, ""@) {
        Some(unwrapped(s, "collections.abc."@, ""@))
    } else if wrapped(s, "collections."@, ""@) {
        Some(unwrapped(s, "collections."@, ""@))
    } else {
        None
    }
}

/// The type of a part of an annotation of `bound` characters. A part is
/// always shorter than the annotation that it was taken from.
pub open spec fn parse_guarded(bound: nat, x: Seq<char>) -> TypeView
    decreases bound, 0nat,
{
    if x.len() < bound {
        parse_type(x)
    } else {
        TypeView::Unknown
    }
}

/// The types of the parts `a` of an annotation of `bound` characters.
pub open spec fn parse_each(bound: nat, a: Seq<Seq<char>>) -> Seq<TypeView>
    decreases bound, 1nat,
{
    Seq::new(a.len(), |i: int| parse_guarded(bound, a[i]))
}

/// The type that the annotation `s` stands for.
///
/// Alternatives separated by `|` make an `Optional` where there are two and
/// exactly one is `None`, else a `Union`. A known name stands for its type.
/// A generic form is mapped with its arguments, each mapped in turn. The
/// printed form of a class, and a name qualified by `typing` or
/// `collections`, stand for what they hold. Any other text is the name of a
/// class or alias that is resolved later.
pub open spec fn parse_type(s: Seq<char>) -> TypeView
    decreases s.len(), 2nat,
{
    let n = s.len();
    let arms = arguments(s, '|');
    if arms.len() >= 2 {
        if arms.len() == 2 && (arms[0] == "None"@) != (arms[1] == "None"@) {
            TypeView::Optional(
                Box::new(
                    parse_guarded(
                        n,
                        if arms[0] == "None"@ {
                            arms[1]
                        } else {
                            arms[0]
                        },
                    ),
                ),
            )
        } else {
            TypeView::Union(parse_each(n, arms))
        }
    } else if simple_type(s) is Some {
        simple_type(s)->0
    } else if wrapped(s, "dict["@, "]"@) {
        let t = parse_each(n, arguments(unwrapped(s, "dict["@, "]"@), ','));
        TypeView::PyDict {
            key_type: Box::new(
                if t.len() >= 1 {
                    t[0]
                } else {
                    TypeView::Unknown
                },
            ),
            value_type: Box::new(
                if t.len() >= 2 {
                    t[1]
                } else {
                    TypeView::Unknown
                },
            ),
        }
    } else if wrapped(s, "frozenset["@, "]"@) {
        TypeView::PyFrozenSet(Box::new(parse_guarded(n, unwrapped(s, "frozenset["@, "]"@))))
    } else if list_item(s) is Some {
        TypeView::PyList(Box::new(parse_guarded(n, list_item(s)->0)))
    } else if wrapped(s, "set["@, "]"@) {
        TypeView::PySet(Box::new(parse_guarded(n, unwrapped(s, "set["@, "]"@))))
    } else if wrapped(s, "tuple["@, "]"@) {
        TypeView::PyTuple(parse_each(n, arguments(unwrapped(s, "tuple["@, "]"@), ',')))
    } else if wrapped(s, "Callable["@, "]"@) {
        let t = parse_each(n, arguments(unwrapped(s, "Callable["@, "]"@), ','));
        TypeView::PyFunction {
            param_types: if t.len() >= 2 {
                t.drop_last()
            } else {
                Seq::empty()
            },
            return_annotation: Box::new(
                if t.len() >= 1 {
                    t.last()
                } else {
                    TypeView::Unknown
                },
            ),
        }
    } else if held(s) is Some {
        parse_guarded(n, held(s)->0)
    } else {
        TypeView::Other(s)
    }
}

/// Cuts `s` into the arguments that `sep` separates.
pub fn arguments_of(s: &Vec<char>, sep: char) -> (out: Vec<Vec<char>>)
    ensures
        views(out@) == arguments(s@, sep),
{
    assert(s@.subrange(0, s.len() as int) =~= s@);
    let raw = split_char(s, 0, s.len(), sep);
    let ghost goal = views(raw@).map_values(|p: Seq<char>| trim(p));
    let mut cut: Vec<Vec<char>> = Vec::new();
    let mut i: usize = 0;
    assert(views(cut@) =~= goal.take(0));
    while i < raw.len()
        invariant
            i <= raw.len(),
            goal == views(raw@).map_values(|p: Seq<char>| trim(p)),
            views(cut@) == goal.take(i as int),
        decreases raw.len() - i,
    {
        let piece = trimmed(&raw[i]);
        push_item(&mut cut, piece);
        assert(views(cut@) =~= goal.take(i as int + 1));
        i += 1;
    }
    assert(goal.take(raw.len() as int) =~= goal);
    regroup(&cut, sep)
}

/// The text of `s` between `pre` and `suf`, where `s` has that form.
fn strip_form(s: &Vec<char>, pre: &str, suf: &str) -> (r: Option<Vec<char>>)
    ensures
        r is Some == wrapped(s@, pre@, suf@),
        r matches Some(x) ==> x@ == unwrapped(s@, pre@, suf@),
{
    let p = chars_of(pre);
    let q = chars_of(suf);
    if p.len() <= s.len() && q.len() <= s.len() - p.len() && starts_with(s, pre) && ends_with(
        s,
        suf,
    ) {
        Some(copy_range(s, p.len(), s.len() - q.len()))
    } else {
        None
    }
}

/// The item text of `s` where it has the form of a list of items.
fn list_item_of(s: &Vec<char>) -> (r: Option<Vec<char>>)
    ensures
        r is Some == list_item(s@) is Some,
        r matches Some(x) ==> list_item(s@) == Some(x@),
{
    if let Some(x) = strip_form(s, "list[", "]") {
        Some(x)
    } else if let Some(x) = strip_form(s, "Sequence[", "]") {
        Some(x)
    } else if let Some(x) = strip_form(s, "Iterable[", "]") {
        Some(x)
    } else if let Some(x) = strip_form(s, "Iterator[", "]") {
        Some(x)
    } else {
        None
    }
}

/// The text that `s` holds where it only wraps or qualifies an annotation.
fn held_of(s: &Vec<char>) -> (r: Option<Vec<char>>)
    ensures
        r is Some == held(s@) is Some,
        r matches Some(x) ==> held(s@) == Some(x@),
{
    if let Some(x) = strip_form(s, "type[", "]") {
        Some(x)
    } else if let Some(x) = strip_form(s, "<class '", "'>") {
        Some(x)
    } else if let Some(x) = strip_form(s, "<enum '", "'>") {
        Some(x)
    } else if let Some(x) = strip_form(s, "typing.", "") {
        Some(x)
    } else if let Some(x) = strip_form(s, "collections.abc.", "") {
        Some(x)
    } else if let Some(x) = strip_form(s, "collections.", "") {
        Some(x)
    } else {
        None
    }
}

/// Maps a part of an annotation of `bound` characters.
fn parse_below(bound: usize, x: &Vec<char>) -> (t: Type)
    ensures
        t@ == parse_guarded(bound as nat, x@),
    decreases bound, 0nat,
{
    if x.len() < bound {
        parse_chars(x)
    } else {
        Type::Unknown
    }
}

/// Maps the parts of an annotation of `bound` characters.
fn parse_list(bound: usize, a: &Vec<Vec<char>>) -> (out: Vec<Type>)
    ensures
        views(out@) == parse_each(bound as nat, views(a@)),
    decreases bound, 1nat,
{
    let ghost goal = parse_each(bound as nat, views(a@));
    let mut out: Vec<Type> = Vec::new();
    let mut i: usize = 0;
    assert(views(out@) =~= goal.take(0));
    while i < a.len()
        invariant
            i <= a.len(),
            goal == parse_each(bound as nat, views(a@)),
            views(out@) == goal.take(i as int),
        decreases a.len() - i,
    {
        let t = parse_below(bound, &a[i]);
        push_item(&mut out, t);
        assert(views(out@) =~= goal.take(i as int + 1));
        i += 1;
    }
    assert(goal.take(a.len() as int) =~= goal);
    out
}

/// The item of `types` at position `i`, or `Unknown` where there is none.
fn type_at(types: &Vec<Type>, i: usize) -> (t: Type)
    ensures
        t@ == if i < types.len() {
            views(types@)[i as int]
        } else {
            TypeView::Unknown
        },
{
    if i < types.len() {
        types[i].clone()
    } else {
        Type::Unknown
    }
}

/// Maps the annotation `s`.
fn parse_chars(s: &Vec<char>) -> (t: Type)
    ensures
        t@ == parse_type(s@),
    decreases s.len(), 2nat,
{
    let n = s.len();
    let arms = arguments_of(s, '|');
    if arms.len() >= 2 {
        let first_none = is_text(&arms[0], "None");
        let second_none = is_text(&arms[1], "None");
        assert(views(arms@)[0] == arms@[0]@);
        assert(views(arms@)[1] == arms@[1]@);
        if arms.len() == 2 && first_none != second_none {
            let inner = if first_none {
                parse_below(n, &arms[1])
            } else {
                parse_below(n, &arms[0])
            };
            return Type::Optional(Box::new(inner));
        }
        return Type::union_of(parse_list(n, &arms));
    }
    if let Some(t) = simple_type_of(s) {
        return t;
    }
    if let Some(x) = strip_form(s, "dict[", "]") {
        let types = parse_list(n, &arguments_of(&x, ','));
        return Type::PyDict {
            key_type: Box::new(type_at(&types, 0)),
            value_type: Box::new(type_at(&types, 1)),
        };
    }
    if let Some(x) = strip_form(s, "frozenset[", "]") {
        return Type::PyFrozenSet(Box::new(parse_below(n, &x)));
    }
    if let Some(x) = list_item_of(s) {
        return Type::PyList(Box::new(parse_below(n, &x)));
    }
    if let Some(x) = strip_form(s, "set[", "]") {
        return Type::PySet(Box::new(parse_below(n, &x)));
    }
    if let Some(x) = strip_form(s, "tuple[", "]") {
        return Type::tuple_of(parse_list(n, &arguments_of(&x, ',')));
    }
    if let Some(x) = strip_form(s, "Callable[", "]") {
        let mut types = parse_list(n, &arguments_of(&x, ','));
        let ghost all = views(types@);
        let ghost before = types@;
        let result = if types.len() >= 1 {
            type_at(&types, types.len() - 1)
        } else {
            Type::Unknown
        };
        if types.len() >= 2 {
            proof {
                crate::text::lemma_views_take(types@, types.len() - 1);
            }
            types.truncate(types.len() - 1);
            assert(types@ =~= before.take(before.len() - 1));
            assert(all.take(all.len() - 1) =~= all.drop_last());
        } else {
            types = Vec::new();
            assert(views(types@) =~= Seq::<TypeView>::empty());
        }
        return Type::function_of(types, result);
    }
    if let Some(x) = held_of(s) {
        return parse_below(n, &x);
    }
    Type::Other(string_of(s))
}

impl Type {
    /// Maps the text of an annotation to the type that it stands for. Every
    /// text has a type: what is not recognised is the name of a class or an
    /// alias.
    pub fn from_str(value: &str) -> (t: Type)
        ensures
            t@ == parse_type(value@),
    {
        let s = chars_of(value);
        parse_chars(&s)
    }
}

} // verus!

verus! {

/// Whether no name is left in `t` that the mapping of annotations would take
/// apart: each name of a class or alias, mapped by itself, is that name
/// again.
pub open spec fn resolved(t: TypeView) -> bool
    decreases t,
{
    match t {
        TypeView::Other(name) => parse_type(name) == TypeView::Other(name),
        TypeView::Optional(inner) => resolved(*inner),
        TypeView::Union(arms) => forall|i: int|
            0 <= i < arms.len() ==> resolved(#[trigger] arms[i]),
        TypeView::PyDict { key_type, value_type } => resolved(*key_type) && resolved(*value_type),
        TypeView::PyFrozenSet(inner) => resolved(*inner),
        TypeView::PyList(inner) => resolved(*inner),
        TypeView::PySet(inner) => resolved(*inner),
        TypeView::PyTuple(items) => forall|i: int|
            0 <= i < items.len() ==> resolved(#[trigger] items[i]),
        TypeView::PyFunction { param_types, return_annotation } => {
            &&& forall|i: int| 0 <= i < param_types.len() ==> resolved(#[trigger] param_types[i])
            &&& resolved(*return_annotation)
        },
        _ => true,
    }
}

/// The type of a part is resolved where the types of all shorter texts are.
proof fn lemma_guarded_resolved(bound: nat, x: Seq<char>)
    ensures
        resolved(parse_guarded(bound, x)),
    decreases bound, 0nat,
{
    if x.len() < bound {
        lemma_parse_resolved(x);
    }
}

/// The types of all parts are resolved.
proof fn lemma_each_resolved(bound: nat, a: Seq<Seq<char>>)
    ensures
        forall|i: int| 0 <= i < a.len() ==> resolved(#[trigger] parse_each(bound, a)[i]),
        parse_each(bound, a).len() == a.len(),
    decreases bound, 1nat,
{
    assert forall|i: int| 0 <= i < a.len() implies resolved(#[trigger] parse_each(bound, a)[i]) by {
        lemma_guarded_resolved(bound, a[i]);
    }
}

/// Whatever the annotation, the type that it maps to is resolved all the way
/// down: no container holds an expression that the mapping would still take
/// apart.
pub proof fn lemma_parse_resolved(s: Seq<char>)
    ensures
        resolved(parse_type(s)),
    decreases s.len(), 2nat,
{
    reveal_with_fuel(resolved, 2);
    let n = s.len();
    let arms = arguments(s, '|');
    if arms.len() >= 2 {
        if arms.len() == 2 && (arms[0] == "None"@) != (arms[1] == "None"@) {
            lemma_guarded_resolved(n, arms[0]);
            lemma_guarded_resolved(n, arms[1]);
        } else {
            lemma_each_resolved(n, arms);
        }
    } else if simple_type(s) is Some {
        lemma_simple_resolved(s);
    } else if wrapped(s, "dict["@, "]"@) {
        lemma_each_resolved(n, arguments(unwrapped(s, "dict["@, "]"@), ','));
    } else if wrapped(s, "frozenset["@, "]"@) {
        lemma_guarded_resolved(n, unwrapped(s, "frozenset["@, "]"@));
    } else if list_item(s) is Some {
        lemma_guarded_resolved(n, list_item(s)->0);
    } else if wrapped(s, "set["@, "]"@) {
        lemma_guarded_resolved(n, unwrapped(s, "set["@, "]"@));
    } else if wrapped(s, "tuple["@, "]"@) {
        lemma_each_resolved(n, arguments(unwrapped(s, "tuple["@, "]"@), ','));
    } else if wrapped(s, "Callable["@, "]"@) {
        lemma_each_resolved(n, arguments(unwrapped(s, "Callable["@, "]"@), ','));
    } else if held(s) is Some {
        lemma_guarded_resolved(n, held(s)->0);
    }
}

/// The type of a known name holds no name of a class.
proof fn lemma_simple_resolved(s: Seq<char>)
    requires
        simple_type(s) is Some,
    ensures
        resolved(simple_type(s)->0),
{
    reveal_with_fuel(resolved, 2);
    let t = simple_type(s)->0;
    match t {
        TypeView::Union(arms) => {
            assert(arms =~= seq![TypeView::Unknown]);
            assert forall|i: int| 0 <= i < arms.len() implies resolved(#[trigger] arms[i]) by {
                assert(arms[i] == TypeView::Unknown);
            }
        },
        TypeView::PyTuple(items) => {
            assert(items =~= seq![TypeView::Unknown]);
            assert forall|i: int| 0 <= i < items.len() implies resolved(#[trigger] items[i]) by {
                assert(items[i] == TypeView::Unknown);
            }
        },
        TypeView::PyFunction { param_types, return_annotation } => {
            assert(param_types =~= seq![TypeView::PyEllipsis]);
            assert(*return_annotation == TypeView::Unknown);
            assert forall|i: int| 0 <= i < param_types.len() implies resolved(
                #[trigger] param_types[i],
            ) by {
                assert(param_types[i] == TypeView::PyEllipsis);
            }
        },
        TypeView::PyDict { key_type, value_type } => {
            assert(*key_type == TypeView::Unknown);
            assert(*value_type == TypeView::Unknown);
        },
        TypeView::PyList(inner) => {
            assert(*inner == TypeView::Unknown);
        },
        _ => {},
    }
}

/// Joins the items of `sequence` again, by `separator`, wherever a square
/// bracket that one item opens is closed only by a later item.
pub fn repair_complex_sequence(sequence: &mut Vec<String>, separator: char)
    ensures
        views(final(sequence)@) == regrouped(views(old(sequence)@), separator, 0),
{
    let mut parts: Vec<Vec<char>> = Vec::new();
    let mut i: usize = 0;
    assert(views(parts@) =~= views(sequence@).take(0));
    while i < sequence.len()
        invariant
            i <= sequence.len(),
            sequence@ == old(sequence)@,
            views(parts@) == views(sequence@).take(i as int),
        decreases sequence.len() - i,
    {
        let part = chars_of(sequence[i].as_str());
        push_item(&mut parts, part);
        assert(views(parts@) =~= views(sequence@).take(i as int + 1));
        i += 1;
    }
    assert(views(sequence@).take(sequence.len() as int) =~= views(sequence@));
    let merged = regroup(&parts, separator);
    let mut out: Vec<String> = Vec::new();
    let mut j: usize = 0;
    assert(views(out@) =~= views(merged@).take(0));
    while j < merged.len()
        invariant
            j <= merged.len(),
            views(out@) == views(merged@).take(j as int),
        decreases merged.len() - j,
    {
        let item = string_of(&merged[j]);
        push_item(&mut out, item);
        assert(views(out@) =~= views(merged@).take(j as int + 1));
        j += 1;
    }
    assert(views(merged@).take(merged.len() as int) =~= views(merged@));
    *sequence = out;
}

} // verus!

verus! {

/// The arguments of a text hold, with the separators between them, no more
/// characters than the text: each of two or more arguments is shorter than
/// the text, and a single argument is no longer.
pub proof fn lemma_arguments_shorter(s: Seq<char>, sep: char)
    ensures
        arguments(s, sep).len() >= 1,
        forall|i: int|
            0 <= i < arguments(s, sep).len() ==> (#[trigger] arguments(s, sep)[i]).len()
                + arguments(s, sep).len() <= s.len() + 1,
{
    let pieces = split_at_char(s, sep, Seq::empty());
    let cut = pieces.map_values(|p: Seq<char>| trim(p));
    let args = arguments(s, sep);
    crate::text::lemma_split_total(s, sep, Seq::empty());
    crate::text::lemma_trimmed_total(pieces);
    crate::text::lemma_regrouped_total(cut, sep, 0);
    assert(cut.skip(0) =~= cut);
    assert forall|i: int| 0 <= i < args.len() implies (#[trigger] args[i]).len() + args.len()
        <= s.len() + 1 by {
        crate::text::lemma_part_within_total(args, i);
    }
}

/// Whatever the annotation, each of its alternatives is mapped as an
/// annotation of its own: none is too long for that.
pub proof fn lemma_alternatives_are_mapped(s: Seq<char>)
    requires
        arguments(s, '|').len() >= 2,
    ensures
        forall|i: int|
            0 <= i < arguments(s, '|').len() ==> parse_guarded(
                s.len(),
                #[trigger] arguments(s, '|')[i],
            ) == parse_type(arguments(s, '|')[i]),
{
    lemma_arguments_shorter(s, '|');
}

/// Whatever the generic form, each of its arguments is mapped as an
/// annotation of its own: none is too long for that.
pub proof fn lemma_arguments_are_mapped(s: Seq<char>, pre: Seq<char>, suf: Seq<char>)
    requires
        wrapped(s, pre, suf),
        pre.len() > 0,
    ensures
        parse_guarded(s.len(), unwrapped(s, pre, suf)) == parse_type(unwrapped(s, pre, suf)),
        forall|i: int|
            0 <= i < arguments(unwrapped(s, pre, suf), ',').len() ==> parse_guarded(
                s.len(),
                #[trigger] arguments(unwrapped(s, pre, suf), ',')[i],
            ) == parse_type(arguments(unwrapped(s, pre, suf), ',')[i]),
{
    lemma_arguments_shorter(unwrapped(s, pre, suf), ',');
}

} // verus!
