//! Model and resolution core of a generator of Rust bindings for Python
//! modules.
//!
//! What a Python runtime tells about a module is written down as plain facts
//! and handed to this library. The library decides what each attribute is
//! ([`syntax::attribute_variant`]), maps annotations to types ([`typing`]),
//! builds the tree of modules, classes, functions and properties
//! ([`syntax`]), brings the trees of several requests into one canonical
//! forest ([`canonical`]), works out the references between the parts of the
//! forest ([`path`]) and writes the source text of the bindings
//! ([`codegen`]).
//!
//! Every function states what it returns over a mathematical model of its
//! arguments: texts are sequences of characters, lists are sequences, and
//! each data type has a view that says what a value of it is.

pub mod canonical;
pub mod canonical_order;
pub mod codegen;
pub mod config;
pub mod emit;
pub mod error;
pub mod ident;
pub mod model;
pub mod naming;
pub mod path;
pub mod syntax;
pub mod text;
pub mod traits;
pub mod typing;
pub mod utils;

pub use codegen::Codegen;
pub use config::Config;
pub use error::PyBindgenError;
pub use typing::Type;
