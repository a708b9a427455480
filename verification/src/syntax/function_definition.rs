//! The generated code of one function.

use vstd::prelude::*;

verus! {

/// A method as it is declared in a trait and as it is implemented.
#[derive(Debug)]
pub struct TraitMethod {
    pub trait_fn: String,
    pub impl_fn: String,
}

/// The texts of a [`TraitMethod`].
pub struct TraitMethodView {
    pub trait_fn: Seq<char>,
    pub impl_fn: Seq<char>,
}

impl View for TraitMethod {
    type V = TraitMethodView;

    open spec fn view(&self) -> TraitMethodView {
        TraitMethodView { trait_fn: self.trait_fn@, impl_fn: self.impl_fn@ }
    }
}

/// The generated code of a function: that of a free function, or that of a
/// method of the object it is called on.
#[derive(Debug)]
pub enum FunctionImplementation {
    Function(String),
    Method(TraitMethod),
}

/// The texts of a [`FunctionImplementation`].
pub enum FunctionImplementationView {
    Function(Seq<char>),
    Method(TraitMethodView),
}

impl View for FunctionImplementation {
    type V = FunctionImplementationView;

    open spec fn view(&self) -> FunctionImplementationView {
        match self {
            FunctionImplementation::Function(s) => FunctionImplementationView::Function(s@),
            FunctionImplementation::Method(m) => FunctionImplementationView::Method(m@),
        }
    }
}

/// No code for a free function.
pub open spec fn no_function() -> FunctionImplementationView {
    FunctionImplementationView::Function(Seq::empty())
}

/// No code for a method.
pub open spec fn no_method() -> FunctionImplementationView {
    FunctionImplementationView::Method(
        TraitMethodView { trait_fn: Seq::empty(), impl_fn: Seq::empty() },
    )
}

impl TraitMethod {
    /// No code.
    pub fn empty() -> (m: TraitMethod)
        ensures
            m@ == (TraitMethodView { trait_fn: Seq::empty(), impl_fn: Seq::empty() }),
    {
        TraitMethod { trait_fn: String::new(), impl_fn: String::new() }
    }
}

impl FunctionImplementation {
    /// No code for a free function.
    pub fn empty_function() -> (f: FunctionImplementation)
        ensures
            f@ == no_function(),
    {
        FunctionImplementation::Function(String::new())
    }

    /// No code for a method.
    pub fn empty_method() -> (f: FunctionImplementation)
        ensures
            f@ == no_method(),
    {
        FunctionImplementation::Method(TraitMethod::empty())
    }
}

} // verus!
