//! Type variables and other markers of the typing facility.

use crate::error::PyBindgenError;
use crate::ident::ident_accepted;
use crate::model::Model;
use crate::path::{Path, PathView};
use vstd::prelude::*;

verus! {

/// A name that stands for a type not known before the code runs.
#[derive(Debug)]
pub struct TypeVar {
    pub name: Path,
}

/// A type variable is known by its path alone.
pub struct TypeVarView {
    pub name: PathView,
}

impl View for TypeVar {
    type V = TypeVarView;

    open spec fn view(&self) -> TypeVarView {
        TypeVarView { name: self.name@ }
    }
}

impl Model for TypeVar {
    fn copy(&self) -> (r: TypeVar) {
        TypeVar { name: self.name.copy() }
    }

    fn equals(&self, other: &TypeVar) -> (r: bool) {
        self.name.equals(&other.name)
    }
}

impl Clone for TypeVar {
    fn clone(&self) -> (r: TypeVar)
        ensures
            r@ == self@,
    {
        self.copy()
    }
}

impl PartialEq for TypeVar {
    fn eq(&self, other: &TypeVar) -> (r: bool) {
        self.equals(other)
    }
}

impl Eq for TypeVar {

}

impl vstd::std_specs::cmp::PartialEqSpecImpl for TypeVar {
    open spec fn obeys_eq_spec() -> bool {
        true
    }

    open spec fn eq_spec(&self, other: &TypeVar) -> bool {
        self@ == other@
    }
}

/// The alias that stands for the type variable `name` in generated code.
pub open spec fn type_var_text(name: Seq<char>) -> Seq<char> {
    "pub type "@ + name + " = ::pyo3::types::PyAny;\n"@
}

impl TypeVar {
    /// The type variable at `name`.
    pub fn new(name: Path) -> (t: TypeVar)
        ensures
            t@ == (TypeVarView { name: name@ }),
    {
        TypeVar { name }
    }

    /// The generated code for the type variable: an alias of the type of any
    /// Python object. It fails where the name is no Rust identifier.
    pub fn generate(&self) -> (r: Result<String, PyBindgenError>)
        requires
            self@.name.segments.len() > 0,
        ensures
            r is Ok == ident_accepted(self@.name.segments.last()),
            r matches Ok(s) ==> s@ == type_var_text(self@.name.segments.last()),
            r matches Err(e) ==> e is SynError,
    {
        match self.name.name().to_token() {
            Ok(ident) => {
                let mut s = String::from_str("pub type ");
                s.append(ident.as_str());
                s.append(" = ::pyo3::types::PyAny;\n");
                Ok(s)
            },
            Err(e) => Err(e),
        }
    }
}

} // verus!
