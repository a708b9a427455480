//! Reading a type from an annotation object.

use crate::text::{push_item, views};
use crate::typing::from_py::{lemma_parse_resolved, parse_type, resolved};
use crate::typing::{Type, TypeView};
use vstd::prelude::*;

verus! {

/// The classes of the interpreter that have a type of their own.
#[derive(Debug, Clone, Copy, PartialEq, Eq, Structural)]
pub enum BuiltinClass {
    PyBool,
    PyByteArray,
    PyBytes,
    PyFloat,
    PyLong,
    PyString,
    PyDict,
    PyFrozenSet,
    PyList,
    PySet,
    PyTuple,
    PySlice,
    PyComplex,
    PyDate,
    PyDateTime,
    PyDelta,
    PyTime,
    PyTzInfo,
    PyCapsule,
    PyCFunction,
    PyCode,
    PyFrame,
    PyFunction,
    PyModule,
    PySuper,
    PyTraceback,
    PyType,
}

/// An annotation as the runtime holds it.
#[derive(Debug)]
pub enum Annotation {
    /// The `None` object.
    Absent,
    /// A class: the classes of the interpreter that it derives from, and its
    /// printed form.
    Class { bases: Vec<BuiltinClass>, text: String },
    /// An object of the typing facility: what it was made from and with which
    /// arguments, as far as it tells, and its printed form.
    Typing { origin: Option<Box<Annotation>>, args: Option<Vec<Annotation>>, text: String },
    /// A string, or any other object in its printed form.
    Text(String),
}

/// The type of each class of the interpreter. Containers hold items of
/// unknown type.
pub open spec fn builtin_type(c: BuiltinClass) -> TypeView {
    match c {
        BuiltinClass::PyBool => TypeView::PyBool,
        BuiltinClass::PyByteArray => TypeView::PyByteArray,
        BuiltinClass::PyBytes => TypeView::PyBytes,
        BuiltinClass::PyFloat => TypeView::PyFloat,
        BuiltinClass::PyLong => TypeView::PyLong,
        BuiltinClass::PyString => TypeView::PyString,
        BuiltinClass::PyDict => TypeView::PyDict {
            key_type: Box::new(TypeView::Unknown),
            value_type: Box::new(TypeView::Unknown),
        },
        BuiltinClass::PyFrozenSet => TypeView::PyFrozenSet(Box::new(TypeView::Unknown)),
        BuiltinClass::PyList => TypeView::PyList(Box::new(TypeView::Unknown)),
        BuiltinClass::PySet => TypeView::PySet(Box::new(TypeView::Unknown)),
        BuiltinClass::PyTuple => TypeView::PyTuple(seq![TypeView::Unknown]),
        BuiltinClass::PySlice => TypeView::PySlice,
        BuiltinClass::PyComplex => TypeView::PyComplex,
        BuiltinClass::PyDate => TypeView::PyDate,
        BuiltinClass::PyDateTime => TypeView::PyDateTime,
        BuiltinClass::PyDelta => TypeView::PyDelta,
        BuiltinClass::PyTime => TypeView::PyTime,
        BuiltinClass::PyTzInfo => TypeView::PyTzInfo,
        BuiltinClass::PyCapsule => TypeView::PyCapsule,
        BuiltinClass::PyCFunction => TypeView::PyCFunction,
        BuiltinClass::PyCode => TypeView::PyCode,
        BuiltinClass::PyFrame => TypeView::PyFrame,
        BuiltinClass::PyFunction => TypeView::PyFunction {
            param_types: seq![TypeView::PyEllipsis],
            return_annotation: Box::new(TypeView::Unknown),
        },
        BuiltinClass::PyModule => TypeView::PyModule,
        BuiltinClass::PySuper => TypeView::PySuper,
        BuiltinClass::PyTraceback => TypeView::PyTraceback,
        BuiltinClass::PyType => TypeView::PyType,
    }
}

/// The class that decides the type of a class that derives from `bases`: the
/// first, in the order of `candidates`, that is among them.
pub open spec fn deciding_class(candidates: Seq<BuiltinClass>, bases: Seq<BuiltinClass>) -> Option<
    BuiltinClass,
>
    decreases candidates.len(),
{
    if candidates.len() == 0 {
        None
    } else if bases.contains(candidates[0]) {
        Some(candidates[0])
    } else {
        deciding_class(candidates.skip(1), bases)
    }
}

/// The order in which the classes of the interpreter are tried. A class that
/// derives from another stands before it where both have a type.
pub open spec fn class_priority() -> Seq<BuiltinClass> {
    seq![
        BuiltinClass::PyBool,
        BuiltinClass::PyByteArray,
        BuiltinClass::PyBytes,
        BuiltinClass::PyFloat,
        BuiltinClass::PyLong,
        BuiltinClass::PyString,
        BuiltinClass::PyDict,
        BuiltinClass::PyFrozenSet,
        BuiltinClass::PyList,
        BuiltinClass::PySet,
        BuiltinClass::PyTuple,
        BuiltinClass::PySlice,
        BuiltinClass::PyComplex,
        BuiltinClass::PyDate,
        BuiltinClass::PyDateTime,
        BuiltinClass::PyDelta,
        BuiltinClass::PyTime,
        BuiltinClass::PyTzInfo,
        BuiltinClass::PyCapsule,
        BuiltinClass::PyCFunction,
        BuiltinClass::PyCode,
        BuiltinClass::PyFrame,
        BuiltinClass::PyFunction,
        BuiltinClass::PyModule,
        BuiltinClass::PySuper,
        BuiltinClass::PyTraceback,
        BuiltinClass::PyType,
    ]
}

/// The type of a class that derives from `bases` and is printed as `text`.
pub open spec fn class_type(bases: Seq<BuiltinClass>, text: Seq<char>) -> TypeView {
    match deciding_class(class_priority(), bases) {
        Some(c) => builtin_type(c),
        None => parse_type(text),
    }
}

/// The item of `types` at position `i`, or `Unknown` where there is none.
pub open spec fn type_or_unknown(types: Seq<TypeView>, i: int) -> TypeView {
    if 0 <= i < types.len() {
        types[i]
    } else {
        TypeView::Unknown
    }
}

/// The type of an object of the typing facility that was made from an object
/// of type `origin` with arguments of the types `args`. Two alternatives of
/// which exactly one is `None` make an `Optional`. A container takes the
/// types of its items from the arguments, a callable the types of its
/// parameters and, last, of its result. `type[..]` stands for its argument.
/// Any other origin stands for itself.
pub open spec fn generic_type(origin: TypeView, args: Seq<TypeView>) -> TypeView {
    match origin {
        TypeView::Union(_) => if args.len() == 2 && (args[0] is PyNone) != (args[1] is PyNone) {
            TypeView::Optional(
                Box::new(
                    if args[0] is PyNone {
                        args[1]
                    } else {
                        args[0]
                    },
                ),
            )
        } else {
            TypeView::Union(args)
        },
        TypeView::Optional(_) => TypeView::Optional(Box::new(type_or_unknown(args, 0))),
        TypeView::PyDict { .. } => TypeView::PyDict {
            key_type: Box::new(type_or_unknown(args, 0)),
            value_type: Box::new(type_or_unknown(args, 1)),
        },
        TypeView::PyFrozenSet(_) => TypeView::PyFrozenSet(Box::new(type_or_unknown(args, 0))),
        TypeView::PyList(_) => TypeView::PyList(Box::new(type_or_unknown(args, 0))),
        TypeView::PySet(_) => TypeView::PySet(Box::new(type_or_unknown(args, 0))),
        TypeView::PyTuple(_) => TypeView::PyTuple(args),
        TypeView::PyFunction { .. } => TypeView::PyFunction {
            param_types: if args.len() >= 2 {
                args.drop_last()
            } else {
                Seq::empty()
            },
            return_annotation: Box::new(type_or_unknown(args, args.len() - 1)),
        },
        TypeView::PyType => type_or_unknown(args, 0),
        _ => origin,
    }
}

/// The type that an object of the typing facility stands for, given the type
/// of what it was made from and the types of its arguments, as far as it
/// tells them, and its printed form: the type of its origin with its
/// arguments where it tells an origin, else that of its printed form.
pub open spec fn typing_type(
    origin: Option<TypeView>,
    args: Option<Seq<TypeView>>,
    text: Seq<char>,
) -> TypeView {
    match origin {
        Some(o) => match args {
            Some(list) => generic_type(o, list),
            None => o,
        },
        None => parse_type(text),
    }
}

/// The type that an annotation object stands for.
pub open spec fn annotation_type(a: &Annotation) -> TypeView
    decreases a,
{
    match a {
        Annotation::Absent => TypeView::Unknown,
        Annotation::Class { bases, text } => class_type(bases@, text@),
        Annotation::Typing { origin, args, text } => typing_type(
            match origin {
                Some(o) => Some(annotation_type(o)),
                None => None,
            },
            match args {
                Some(list) => Some(annotation_types(list)),
                None => None,
            },
            text@,
        ),
        Annotation::Text(text) => parse_type(text@),
    }
}

/// The types that the annotation objects of a list stand for.
pub open spec fn annotation_types(list: &Vec<Annotation>) -> Seq<TypeView>
    decreases list,
{
    Seq::new(
        list.len() as nat,
        |i: int|
            if 0 <= i < list.len() {
                annotation_type(&list[i])
            } else {
                TypeView::Unknown
            },
    )
}

/// The list that holds `t` alone.
fn one_type(t: Type) -> (v: Vec<Type>)
    ensures
        views(v@) == seq![t@],
{
    let mut v: Vec<Type> = Vec::new();
    push_item(&mut v, t);
    assert(views(v@) =~= seq![t@]);
    v
}

/// Whether `bases` holds `c`.
fn derives_from(bases: &Vec<BuiltinClass>, c: BuiltinClass) -> (r: bool)
    ensures
        r == bases@.contains(c),
{
    let mut i: usize = 0;
    while i < bases.len()
        invariant
            i <= bases.len(),
            forall|j: int| 0 <= j < i ==> bases@[j] != c,
        decreases bases.len() - i,
    {
        if bases[i] == c {
            return true;
        }
        i += 1;
    }
    false
}

impl BuiltinClass {
    /// The classes of the interpreter in the order in which they are tried.
    pub fn priority() -> (order: Vec<BuiltinClass>)
        ensures
            order@ == class_priority(),
    {
        let mut order: Vec<BuiltinClass> = Vec::new();
        order.push(BuiltinClass::PyBool);
        order.push(BuiltinClass::PyByteArray);
        order.push(BuiltinClass::PyBytes);
        order.push(BuiltinClass::PyFloat);
        order.push(BuiltinClass::PyLong);
        order.push(BuiltinClass::PyString);
        order.push(BuiltinClass::PyDict);
        order.push(BuiltinClass::PyFrozenSet);
        order.push(BuiltinClass::PyList);
        order.push(BuiltinClass::PySet);
        order.push(BuiltinClass::PyTuple);
        order.push(BuiltinClass::PySlice);
        order.push(BuiltinClass::PyComplex);
        order.push(BuiltinClass::PyDate);
        order.push(BuiltinClass::PyDateTime);
        order.push(BuiltinClass::PyDelta);
        order.push(BuiltinClass::PyTime);
        order.push(BuiltinClass::PyTzInfo);
        order.push(BuiltinClass::PyCapsule);
        order.push(BuiltinClass::PyCFunction);
        order.push(BuiltinClass::PyCode);
        order.push(BuiltinClass::PyFrame);
        order.push(BuiltinClass::PyFunction);
        order.push(BuiltinClass::PyModule);
        order.push(BuiltinClass::PySuper);
        order.push(BuiltinClass::PyTraceback);
        order.push(BuiltinClass::PyType);
        assert(order@ =~= class_priority());
        order
    }

    /// The type of the class.
    pub fn to_type(self) -> (t: Type)
        ensures
            t@ == builtin_type(self),
    {
        reveal_with_fuel(Type::model, 2);
        match self {
            BuiltinClass::PyBool => Type::PyBool,
            BuiltinClass::PyByteArray => Type::PyByteArray,
            BuiltinClass::PyBytes => Type::PyBytes,
            BuiltinClass::PyFloat => Type::PyFloat,
            BuiltinClass::PyLong => Type::PyLong,
            BuiltinClass::PyString => Type::PyString,
            BuiltinClass::PyDict => Type::PyDict {
                key_type: Box::new(Type::Unknown),
                value_type: Box::new(Type::Unknown),
            },
            BuiltinClass::PyFrozenSet => Type::PyFrozenSet(Box::new(Type::Unknown)),
            BuiltinClass::PyList => Type::PyList(Box::new(Type::Unknown)),
            BuiltinClass::PySet => Type::PySet(Box::new(Type::Unknown)),
            BuiltinClass::PyTuple => Type::tuple_of(one_type(Type::Unknown)),
            BuiltinClass::PySlice => Type::PySlice,
            BuiltinClass::PyComplex => Type::PyComplex,
            BuiltinClass::PyDate => Type::PyDate,
            BuiltinClass::PyDateTime => Type::PyDateTime,
            BuiltinClass::PyDelta => Type::PyDelta,
            BuiltinClass::PyTime => Type::PyTime,
            BuiltinClass::PyTzInfo => Type::PyTzInfo,
            BuiltinClass::PyCapsule => Type::PyCapsule,
            BuiltinClass::PyCFunction => Type::PyCFunction,
            BuiltinClass::PyCode => Type::PyCode,
            BuiltinClass::PyFrame => Type::PyFrame,
            BuiltinClass::PyFunction => Type::function_of(
                one_type(Type::PyEllipsis),
                Type::Unknown,
            ),
            BuiltinClass::PyModule => Type::PyModule,
            BuiltinClass::PySuper => Type::PySuper,
            BuiltinClass::PyTraceback => Type::PyTraceback,
            BuiltinClass::PyType => Type::PyType,
        }
    }
}

/// The item of `types` at position `i`, or `Unknown` where there is none.
fn item_or_unknown(types: &Vec<Type>, i: usize) -> (t: Type)
    ensures
        t@ == type_or_unknown(views(types@), i as int),
{
    if i < types.len() {
        types[i].clone()
    } else {
        Type::Unknown
    }
}

/// The types that the annotation objects of a list stand for.
fn types_of(list: &Vec<Annotation>) -> (out: Vec<Type>)
    ensures
        views(out@) == annotation_types(list),
    decreases list, 0nat,
{
    let ghost goal = annotation_types(list);
    let mut out: Vec<Type> = Vec::new();
    let mut i: usize = 0;
    assert(views(out@) =~= goal.take(0));
    while i < list.len()
        invariant
            i <= list.len(),
            goal == annotation_types(list),
            views(out@) == goal.take(i as int),
        decreases list.len() - i,
    {
        let t = Type::from_annotation(&list[i]);
        push_item(&mut out, t);
        assert(views(out@) =~= goal.take(i as int + 1));
        i += 1;
    }
    assert(goal.take(list.len() as int) =~= goal);
    out
}

impl Type {
    /// The type of a class that derives from `bases` and is printed as
    /// `text`.
    pub fn from_class(bases: &Vec<BuiltinClass>, text: &str) -> (t: Type)
        ensures
            t@ == class_type(bases@, text@),
    {
        let order = BuiltinClass::priority();
        let mut i: usize = 0;
        assert(order@.skip(0) =~= order@);
        while i < order.len()
            invariant
                i <= order.len(),
                order@ == class_priority(),
                deciding_class(class_priority(), bases@) == deciding_class(
                    order@.skip(i as int),
                    bases@,
                ),
            decreases order.len() - i,
        {
            if derives_from(bases, order[i]) {
                return order[i].to_type();
            }
            assert(order@.skip(i as int).skip(1) =~= order@.skip(i as int + 1));
            i += 1;
        }
        Type::from_str(text)
    }

    /// The type of an object of the typing facility that was made from an
    /// object of type `origin` with arguments of the types `args`.
    pub fn from_generic(origin: Type, args: Vec<Type>) -> (t: Type)
        ensures
            t@ == generic_type(origin@, views(args@)),
    {
        let mut args = args;
        let ghost all = views(args@);
        match origin {
            Type::Union(_) => {
                if args.len() == 2 {
                    let first_none = matches!(args[0], Type::PyNone);
                    let second_none = matches!(args[1], Type::PyNone);
                    assert(all[0] == args@[0]@);
                    assert(all[1] == args@[1]@);
                    if first_none != second_none {
                        let inner = if first_none {
                            args[1].clone()
                        } else {
                            args[0].clone()
                        };
                        return Type::Optional(Box::new(inner));
                    }
                }
                Type::union_of(args)
            },
            Type::Optional(_) => Type::Optional(Box::new(item_or_unknown(&args, 0))),
            Type::PyDict { .. } => Type::PyDict {
                key_type: Box::new(item_or_unknown(&args, 0)),
                value_type: Box::new(item_or_unknown(&args, 1)),
            },
            Type::PyFrozenSet(_) => Type::PyFrozenSet(Box::new(item_or_unknown(&args, 0))),
            Type::PyList(_) => Type::PyList(Box::new(item_or_unknown(&args, 0))),
            Type::PySet(_) => Type::PySet(Box::new(item_or_unknown(&args, 0))),
            Type::PyTuple(_) => Type::tuple_of(args),
            Type::PyFunction { .. } => {
                let result = if args.len() >= 1 {
                    item_or_unknown(&args, args.len() - 1)
                } else {
                    Type::Unknown
                };
                if args.len() >= 2 {
                    let ghost before = args@;
                    proof {
                        crate::text::lemma_views_take(args@, args.len() - 1);
                    }
                    args.truncate(args.len() - 1);
                    assert(args@ =~= before.take(before.len() - 1));
                    assert(all.take(all.len() - 1) =~= all.drop_last());
                } else {
                    args = Vec::new();
                    assert(views(args@) =~= Seq::<TypeView>::empty());
                }
                Type::function_of(args, result)
            },
            Type::PyType => item_or_unknown(&args, 0),
            _ => origin,
        }
    }

    /// The type that an object of the typing facility stands for, given the
    /// type of what it was made from and the types of its arguments, as far
    /// as it tells them, and its printed form.
    pub fn from_typing(origin: Option<Type>, args: Option<Vec<Type>>, text: &str) -> (t: Type)
        ensures
            t@ == typing_type(
                crate::model::view_opt(origin),
                match args {
                    Some(list) => Some(views(list@)),
                    None => None,
                },
                text@,
            ),
    {
        match origin {
            Some(o) => match args {
                Some(list) => Type::from_generic(o, list),
                None => o,
            },
            None => Type::from_str(text),
        }
    }

    /// The type that an annotation object stands for. Every object has a
    /// type: what is not recognised is the name of a class or an alias.
    pub fn from_annotation(a: &Annotation) -> (t: Type)
        ensures
            t@ == annotation_type(a),
        decreases a, 1nat,
    {
        match a {
            Annotation::Absent => Type::Unknown,
            Annotation::Class { bases, text } => Type::from_class(bases, text.as_str()),
            Annotation::Typing { origin, args, text } => {
                let origin_type = match origin {
                    Some(o) => Some(Type::from_annotation(o)),
                    None => None,
                };
                let arg_types = match args {
                    Some(list) => Some(types_of(list)),
                    None => None,
                };
                Type::from_typing(origin_type, arg_types, text.as_str())
            },
            Annotation::Text(text) => Type::from_str(text.as_str()),
        }
    }
}

} // verus!

verus! {

/// The type of a class of the interpreter holds no name of a class.
pub proof fn lemma_builtin_resolved(c: BuiltinClass)
    ensures
        resolved(builtin_type(c)),
{
    reveal_with_fuel(resolved, 2);
    let t = builtin_type(c);
    match t {
        TypeView::PyTuple(items) => {
            assert forall|i: int| 0 <= i < items.len() implies resolved(#[trigger] items[i]) by {
                assert(items[i] == TypeView::Unknown);
            }
        },
        TypeView::PyFunction { param_types, return_annotation } => {
            assert forall|i: int| 0 <= i < param_types.len() implies resolved(
                #[trigger] param_types[i],
            ) by {
                assert(param_types[i] == TypeView::PyEllipsis);
            }
        },
        _ => {},
    }
}

/// The type of an object of the typing facility is resolved where the types
/// of its origin and of its arguments are.
pub proof fn lemma_generic_resolved(origin: TypeView, args: Seq<TypeView>)
    requires
        resolved(origin),
        forall|i: int| 0 <= i < args.len() ==> resolved(#[trigger] args[i]),
    ensures
        resolved(generic_type(origin, args)),
{
    reveal_with_fuel(resolved, 2);
    let t = generic_type(origin, args);
    if args.len() > 0 {
        assert(resolved(args[0]));
        assert(resolved(args[args.len() - 1]));
    }
    if args.len() > 1 {
        assert(resolved(args[1]));
    }
    match origin {
        TypeView::PyFunction { .. } => {
            let params = t->PyFunction_param_types;
            assert forall|i: int| 0 <= i < params.len() implies resolved(#[trigger] params[i]) by {
                assert(params[i] == args[i]);
            }
        },
        _ => {},
    }
}

/// Whatever the annotation object, the type that it maps to is resolved all
/// the way down.
pub proof fn lemma_annotation_resolved(a: &Annotation)
    ensures
        resolved(annotation_type(a)),
    decreases a,
{
    match a {
        Annotation::Absent => {},
        Annotation::Class { bases, text } => {
            match deciding_class(class_priority(), bases@) {
                Some(c) => {
                    lemma_builtin_resolved(c);
                },
                None => {
                    lemma_parse_resolved(text@);
                },
            }
        },
        Annotation::Typing { origin, args, text } => {
            match origin {
                Some(o) => {
                    lemma_annotation_resolved(o);
                    match args {
                        Some(list) => {
                            let types = annotation_types(list);
                            assert forall|i: int| 0 <= i < types.len() implies resolved(
                                #[trigger] types[i],
                            ) by {
                                lemma_annotation_resolved(&list[i]);
                            }
                            lemma_generic_resolved(annotation_type(o), types);
                        },
                        None => {},
                    }
                },
                None => {
                    lemma_parse_resolved(text@);
                },
            }
        },
        Annotation::Text(text) => {
            lemma_parse_resolved(text@);
        },
    }
}

} // verus!
