//! The closed set of types that an annotation can map to.

use crate::text::views;
use vstd::prelude::*;

verus! {

/// The type that a Python annotation stands for.
#[derive(Debug)]
pub enum Type {
    /// Any object at all: the fallback for what cannot be mapped.
    PyAny,
    /// A class or alias known only by its name, to be resolved against the
    /// module tree.
    Other(String),
    /// No annotation was given.
    Unknown,
    PyBool,
    PyByteArray,
    PyBytes,
    PyFloat,
    PyLong,
    PyString,
    Optional(Box<Type>),
    Union(Vec<Type>),
    PyNone,
    PyDict { key_type: Box<Type>, value_type: Box<Type> },
    PyFrozenSet(Box<Type>),
    PyList(Box<Type>),
    PySet(Box<Type>),
    PyTuple(Vec<Type>),
    IpV4Addr,
    IpV6Addr,
    Path,
    PySlice,
    PyComplex,
    PyDate,
    PyDateTime,
    PyDelta,
    PyTime,
    PyTzInfo,
    PyCapsule,
    PyCFunction,
    PyCode,
    PyEllipsis,
    PyFrame,
    PyFunction { param_types: Vec<Type>, return_annotation: Box<Type> },
    PyModule,
    PySuper,
    PyTraceback,
    PyType,
}

/// What a [`Type`] is, with texts and lists as mathematical sequences.
pub enum TypeView {
    PyAny,
    Other(Seq<char>),
    Unknown,
    PyBool,
    PyByteArray,
    PyBytes,
    PyFloat,
    PyLong,
    PyString,
    Optional(Box<TypeView>),
    Union(Seq<TypeView>),
    PyNone,
    PyDict { key_type: Box<TypeView>, value_type: Box<TypeView> },
    PyFrozenSet(Box<TypeView>),
    PyList(Box<TypeView>),
    PySet(Box<TypeView>),
    PyTuple(Seq<TypeView>),
    IpV4Addr,
    IpV6Addr,
    Path,
    PySlice,
    PyComplex,
    PyDate,
    PyDateTime,
    PyDelta,
    PyTime,
    PyTzInfo,
    PyCapsule,
    PyCFunction,
    PyCode,
    PyEllipsis,
    PyFrame,
    PyFunction { param_types: Seq<TypeView>, return_annotation: Box<TypeView> },
    PyModule,
    PySuper,
    PyTraceback,
    PyType,
}

impl Type {
    /// The model of a type, defined by recursion over its shape.
    pub open spec fn model(&self) -> TypeView
        decreases self,
    {
        match self {
            Type::Other(name) => TypeView::Other(name@),
            Type::Optional(inner) => TypeView::Optional(Box::new(inner.model())),
            Type::Union(inner) => TypeView::Union(Type::models(inner)),
            Type::PyDict { key_type, value_type } => TypeView::PyDict {
                key_type: Box::new(key_type.model()),
                value_type: Box::new(value_type.model()),
            },
            Type::PyFrozenSet(inner) => TypeView::PyFrozenSet(Box::new(inner.model())),
            Type::PyList(inner) => TypeView::PyList(Box::new(inner.model())),
            Type::PySet(inner) => TypeView::PySet(Box::new(inner.model())),
            Type::PyTuple(inner) => TypeView::PyTuple(Type::models(inner)),
            Type::PyFunction { param_types, return_annotation } => TypeView::PyFunction {
                param_types: Type::models(param_types),
                return_annotation: Box::new(return_annotation.model()),
            },
            Type::PyAny => TypeView::PyAny,
            Type::Unknown => TypeView::Unknown,
            Type::PyBool => TypeView::PyBool,
            Type::PyByteArray => TypeView::PyByteArray,
            Type::PyBytes => TypeView::PyBytes,
            Type::PyFloat => TypeView::PyFloat,
            Type::PyLong => TypeView::PyLong,
            Type::PyString => TypeView::PyString,
            Type::PyNone => TypeView::PyNone,
            Type::IpV4Addr => TypeView::IpV4Addr,
            Type::IpV6Addr => TypeView::IpV6Addr,
            Type::Path => TypeView::Path,
            Type::PySlice => TypeView::PySlice,
            Type::PyComplex => TypeView::PyComplex,
            Type::PyDate => TypeView::PyDate,
            Type::PyDateTime => TypeView::PyDateTime,
            Type::PyDelta => TypeView::PyDelta,
            Type::PyTime => TypeView::PyTime,
            Type::PyTzInfo => TypeView::PyTzInfo,
            Type::PyCapsule => TypeView::PyCapsule,
            Type::PyCFunction => TypeView::PyCFunction,
            Type::PyCode => TypeView::PyCode,
            Type::PyEllipsis => TypeView::PyEllipsis,
            Type::PyFrame => TypeView::PyFrame,
            Type::PyModule => TypeView::PyModule,
            Type::PySuper => TypeView::PySuper,
            Type::PyTraceback => TypeView::PyTraceback,
            Type::PyType => TypeView::PyType,
        }
    }

    /// The models of the items of a list of types.
    pub open spec fn models(list: &Vec<Type>) -> Seq<TypeView>
        decreases list,
    {
        Seq::new(
            list.len() as nat,
            |i: int|
                if 0 <= i < list.len() {
                    list[i].model()
                } else {
                    TypeView::Unknown
                },
        )
    }

    /// The models of a list are the views of its items.
    pub proof fn lemma_models(list: &Vec<Type>)
        ensures
            Type::models(list) == views(list@),
    {
        assert(Type::models(list) =~= views(list@));
    }
}

impl View for Type {
    type V = TypeView;

    open spec fn view(&self) -> TypeView {
        self.model()
    }
}

/// Whether two lists of types hold equal types, position by position.
fn same_types(a: &Vec<Type>, b: &Vec<Type>) -> (r: bool)
    ensures
        r == (views(a@) == views(b@)),
    decreases a, 0nat,
{
    if a.len() != b.len() {
        assert(views(a@).len() != views(b@).len());
        return false;
    }
    let mut i: usize = 0;
    while i < a.len()
        invariant
            i <= a.len(),
            a.len() == b.len(),
            forall|j: int| 0 <= j < i ==> a[j]@ == b[j]@,
        decreases a.len() - i,
    {
        if !a[i].same(&b[i]) {
            assert(views(a@)[i as int] != views(b@)[i as int]);
            return false;
        }
        i += 1;
    }
    assert(views(a@) =~= views(b@));
    true
}

/// A copy of a list of types.
fn clone_types(a: &Vec<Type>) -> (r: Vec<Type>)
    ensures
        views(r@) == views(a@),
    decreases a, 0nat,
{
    let mut out: Vec<Type> = Vec::new();
    let mut i: usize = 0;
    while i < a.len()
        invariant
            i <= a.len(),
            out.len() == i,
            forall|j: int| 0 <= j < i ==> out[j]@ == a[j]@,
        decreases a.len() - i,
    {
        out.push(a[i].clone());
        i += 1;
    }
    assert(views(out@) =~= views(a@));
    out
}

impl Type {
    /// Whether `self` and `other` are the same type.
    pub fn same(&self, other: &Type) -> (r: bool)
        ensures
            r == (self@ == other@),
        decreases self, 1nat,
    {
        match (self, other) {
            (Type::Other(a), Type::Other(b)) => *a == *b,
            (Type::Optional(a), Type::Optional(b)) => a.same(b),
            (Type::Union(a), Type::Union(b)) => {
                proof {
                    Type::lemma_models(a);
                    Type::lemma_models(b);
                }
                same_types(a, b)
            },
            (
                Type::PyDict { key_type: k1, value_type: v1 },
                Type::PyDict { key_type: k2, value_type: v2 },
            ) => k1.same(k2) && v1.same(v2),
            (Type::PyFrozenSet(a), Type::PyFrozenSet(b)) => a.same(b),
            (Type::PyList(a), Type::PyList(b)) => a.same(b),
            (Type::PySet(a), Type::PySet(b)) => a.same(b),
            (Type::PyTuple(a), Type::PyTuple(b)) => {
                proof {
                    Type::lemma_models(a);
                    Type::lemma_models(b);
                }
                same_types(a, b)
            },
            (
                Type::PyFunction { param_types: params, return_annotation: result },
                Type::PyFunction { param_types: other_params, return_annotation: other_result },
            ) => {
                proof {
                    Type::lemma_models(params);
                    Type::lemma_models(other_params);
                }
                same_types(params, other_params) && result.same(other_result)
            },
            (Type::PyAny, Type::PyAny) => true,
            (Type::Unknown, Type::Unknown) => true,
            (Type::PyBool, Type::PyBool) => true,
            (Type::PyByteArray, Type::PyByteArray) => true,
            (Type::PyBytes, Type::PyBytes) => true,
            (Type::PyFloat, Type::PyFloat) => true,
            (Type::PyLong, Type::PyLong) => true,
            (Type::PyString, Type::PyString) => true,
            (Type::PyNone, Type::PyNone) => true,
            (Type::IpV4Addr, Type::IpV4Addr) => true,
            (Type::IpV6Addr, Type::IpV6Addr) => true,
            (Type::Path, Type::Path) => true,
            (Type::PySlice, Type::PySlice) => true,
            (Type::PyComplex, Type::PyComplex) => true,
            (Type::PyDate, Type::PyDate) => true,
            (Type::PyDateTime, Type::PyDateTime) => true,
            (Type::PyDelta, Type::PyDelta) => true,
            (Type::PyTime, Type::PyTime) => true,
            (Type::PyTzInfo, Type::PyTzInfo) => true,
            (Type::PyCapsule, Type::PyCapsule) => true,
            (Type::PyCFunction, Type::PyCFunction) => true,
            (Type::PyCode, Type::PyCode) => true,
            (Type::PyEllipsis, Type::PyEllipsis) => true,
            (Type::PyFrame, Type::PyFrame) => true,
            (Type::PyModule, Type::PyModule) => true,
            (Type::PySuper, Type::PySuper) => true,
            (Type::PyTraceback, Type::PyTraceback) => true,
            (Type::PyType, Type::PyType) => true,
            _ => false,
        }
    }
}

impl Clone for Type {
    fn clone(&self) -> (r: Type)
        ensures
            r@ == self@,
        decreases self, 1nat,
    {
        match self {
            Type::Other(name) => Type::Other(name.clone()),
            Type::Optional(inner) => Type::Optional(Box::new((**inner).clone())),
            Type::Union(inner) => {
                let list = clone_types(inner);
                proof {
                    Type::lemma_models(inner);
                    Type::lemma_models(&list);
                }
                Type::Union(list)
            },
            Type::PyDict { key_type, value_type } => Type::PyDict {
                key_type: Box::new((**key_type).clone()),
                value_type: Box::new((**value_type).clone()),
            },
            Type::PyFrozenSet(inner) => Type::PyFrozenSet(Box::new((**inner).clone())),
            Type::PyList(inner) => Type::PyList(Box::new((**inner).clone())),
            Type::PySet(inner) => Type::PySet(Box::new((**inner).clone())),
            Type::PyTuple(inner) => {
                let list = clone_types(inner);
                proof {
                    Type::lemma_models(inner);
                    Type::lemma_models(&list);
                }
                Type::PyTuple(list)
            },
            Type::PyFunction { param_types, return_annotation } => {
                let list = clone_types(param_types);
                proof {
                    Type::lemma_models(param_types);
                    Type::lemma_models(&list);
                }
                Type::PyFunction {
                    param_types: list,
                    return_annotation: Box::new((**return_annotation).clone()),
                }
            },
            Type::PyAny => Type::PyAny,
            Type::Unknown => Type::Unknown,
            Type::PyBool => Type::PyBool,
            Type::PyByteArray => Type::PyByteArray,
            Type::PyBytes => Type::PyBytes,
            Type::PyFloat => Type::PyFloat,
            Type::PyLong => Type::PyLong,
            Type::PyString => Type::PyString,
            Type::PyNone => Type::PyNone,
            Type::IpV4Addr => Type::IpV4Addr,
            Type::IpV6Addr => Type::IpV6Addr,
            Type::Path => Type::Path,
            Type::PySlice => Type::PySlice,
            Type::PyComplex => Type::PyComplex,
            Type::PyDate => Type::PyDate,
            Type::PyDateTime => Type::PyDateTime,
            Type::PyDelta => Type::PyDelta,
            Type::PyTime => Type::PyTime,
            Type::PyTzInfo => Type::PyTzInfo,
            Type::PyCapsule => Type::PyCapsule,
            Type::PyCFunction => Type::PyCFunction,
            Type::PyCode => Type::PyCode,
            Type::PyEllipsis => Type::PyEllipsis,
            Type::PyFrame => Type::PyFrame,
            Type::PyModule => Type::PyModule,
            Type::PySuper => Type::PySuper,
            Type::PyTraceback => Type::PyTraceback,
            Type::PyType => Type::PyType,
        }
    }
}

impl PartialEq for Type {
    fn eq(&self, other: &Type) -> (r: bool) {
        self.same(other)
    }
}

impl Eq for Type {

}

impl vstd::std_specs::cmp::PartialEqSpecImpl for Type {
    open spec fn obeys_eq_spec() -> bool {
        true
    }

    open spec fn eq_spec(&self, other: &Type) -> bool {
        self@ == other@
    }
}

impl Type {
    /// The union of the given types.
    pub fn union_of(arms: Vec<Type>) -> (t: Type)
        ensures
            t@ == TypeView::Union(views(arms@)),
    {
        proof {
            Type::lemma_models(&arms);
        }
        Type::Union(arms)
    }

    /// The tuple of the given types.
    pub fn tuple_of(items: Vec<Type>) -> (t: Type)
        ensures
            t@ == TypeView::PyTuple(views(items@)),
    {
        proof {
            Type::lemma_models(&items);
        }
        Type::PyTuple(items)
    }

    /// The callable that takes `params` and returns `result`.
    pub fn function_of(params: Vec<Type>, result: Type) -> (t: Type)
        ensures
            t@ == (TypeView::PyFunction {
                param_types: views(params@),
                return_annotation: Box::new(result@),
            }),
    {
        proof {
            Type::lemma_models(&params);
        }
        Type::PyFunction { param_types: params, return_annotation: Box::new(result) }
    }

    /// Whether values of the type can serve as keys of a Rust hash map.
    pub open spec fn hashable(t: TypeView) -> bool {
        t is PyBool || t is IpV4Addr || t is IpV6Addr || t is Path || t is PyDelta || t is PyDict
            || t is PyFrozenSet || t is PyLong || t is PySet || t is PyString
    }

    /// Whether values of the type can serve as keys of a Rust hash map.
    pub fn is_hashable(&self) -> (r: bool)
        ensures
            r == Type::hashable(self@),
    {
        match self {
            Type::PyBool
            | Type::IpV4Addr
            | Type::IpV6Addr
            | Type::Path
            | Type::PyDelta
            | Type::PyDict { .. }
            | Type::PyFrozenSet(..)
            | Type::PyLong
            | Type::PySet(..)
            | Type::PyString => true,
            _ => false,
        }
    }

    /// Whether values of the type can serve as keys of a Rust hash map once
    /// they are owned.
    pub fn is_owned_hashable(&self) -> (r: bool)
        ensures
            r == Type::hashable(self@),
    {
        self.is_hashable()
    }
}

} // verus!

pub mod annotation;
pub mod balance;
pub mod from_py;
pub mod into_rs;
pub mod local_types;

