//! The parts of a Python module as the generator sees them.

pub mod attribute_variant;
pub mod class;
pub mod function;
pub mod function_definition;
pub mod function_generate;
pub mod import;
pub mod module;
pub mod module_generate;
pub mod module_parse;
pub mod module_scope;
pub mod property;
pub mod type_var;

pub use crate::ident::Ident;
pub use crate::path::Path;
pub use attribute_variant::AttributeVariant;
pub use class::Class;
pub use function::{Function, FunctionType, MethodType};
pub use function_definition::{FunctionImplementation, TraitMethod};
pub use import::{Import, ImportType};
pub use module::Module;
pub use property::{Property, PropertyOwner};
pub use type_var::TypeVar;
