//! Telling the kinds of attributes apart.

use crate::path::{same_path, Path, PathView};
use crate::text::{contains_text, has_text, str_eq};
use vstd::prelude::*;

verus! {

/// The kind of thing that an attribute of a module or class is.
#[derive(Debug, Clone, Copy, PartialEq, Eq, Structural)]
pub enum AttributeVariant {
    /// Something defined elsewhere and made visible here.
    Import,
    /// A submodule.
    Module,
    /// A class.
    Class,
    /// A function, built in or written in Python.
    Function,
    /// A method bound to an object.
    Method,
    /// A partial application of a function.
    Closure,
    /// A marker of the typing facility.
    TypeVar,
    /// Any other value.
    Property,
}

/// What the runtime tells about an attribute, as far as its kind depends on
/// it.
#[derive(Debug)]
pub struct AttributeTraits {
    /// The name of the attribute's type.
    pub class_name: String,
    /// The module that defines the attribute's type, empty where none is
    /// known.
    pub class_module: String,
    /// Whether the attribute is a module object.
    pub is_submodule: bool,
    /// Whether the attribute is a class.
    pub is_class: bool,
    /// Whether the attribute is a function that the runtime has built in.
    pub is_builtin_function: bool,
    /// Whether the attribute is a function written in Python.
    pub is_function: bool,
    /// Whether the attribute is a bound method.
    pub is_method: bool,
    /// The attribute as the runtime prints it.
    pub text: String,
}

/// [`AttributeTraits`] with its texts as sequences.
pub struct AttributeTraitsView {
    pub class_name: Seq<char>,
    pub class_module: Seq<char>,
    pub is_submodule: bool,
    pub is_class: bool,
    pub is_builtin_function: bool,
    pub is_function: bool,
    pub is_method: bool,
    pub text: Seq<char>,
}

impl View for AttributeTraits {
    type V = AttributeTraitsView;

    open spec fn view(&self) -> AttributeTraitsView {
        AttributeTraitsView {
            class_name: self.class_name@,
            class_module: self.class_module@,
            is_submodule: self.is_submodule,
            is_class: self.is_class,
            is_builtin_function: self.is_builtin_function,
            is_function: self.is_function,
            is_method: self.is_method,
            text: self.text@,
        }
    }
}

/// Whether the attribute's type is `functools.partial`.
pub open spec fn is_closure(t: AttributeTraitsView) -> bool {
    t.class_module == "functools"@ && t.class_name == "partial"@
}

/// Whether the attribute's type comes from `typing` or from `types`.
pub open spec fn is_type_marker(t: AttributeTraitsView) -> bool {
    t.class_module == "typing"@ || t.class_module == "types"@
}

/// Whether the attribute was defined in another scope than its owner and
/// only made visible in it. What is printed with `<locals>` was made inside a
/// function, by a decorator for one, and counts as defined by its owner.
pub open spec fn is_imported(
    t: AttributeTraitsView,
    attr_module: PathView,
    owner_name: PathView,
) -> bool {
    !contains_text(t.text, "<locals>"@) && !same_path(attr_module, owner_name) && (t.is_submodule
        || t.is_class || t.is_function || t.is_method)
}

/// The kind of an attribute. The tests are made in a fixed order and the
/// first that holds decides: imported, module, class, function, method,
/// closure, type marker. What passes none of them is a property.
pub open spec fn classify(
    t: AttributeTraitsView,
    attr_module: PathView,
    owner_name: PathView,
    consider_import: bool,
) -> AttributeVariant {
    if consider_import && is_imported(t, attr_module, owner_name) {
        AttributeVariant::Import
    } else if t.is_submodule {
        AttributeVariant::Module
    } else if t.is_class {
        AttributeVariant::Class
    } else if t.is_builtin_function || t.is_function {
        AttributeVariant::Function
    } else if t.is_method {
        AttributeVariant::Method
    } else if is_closure(t) {
        AttributeVariant::Closure
    } else if is_type_marker(t) {
        AttributeVariant::TypeVar
    } else {
        AttributeVariant::Property
    }
}

impl AttributeVariant {
    /// Tells the kind of an attribute that was defined in `attr_module` and
    /// found in `owner_name`. Imports are told apart only where
    /// `consider_import` asks for it.
    pub fn determine(
        traits: &AttributeTraits,
        attr_module: &Path,
        owner_name: &Path,
        consider_import: bool,
    ) -> (v: AttributeVariant)
        ensures
            v == classify(traits@, attr_module@, owner_name@, consider_import),
    {
        let class_module = traits.class_module.as_str();
        let closure = str_eq(class_module, "functools") && str_eq(
            traits.class_name.as_str(),
            "partial",
        );
        let marker = str_eq(class_module, "typing") || str_eq(class_module, "types");
        let in_locals = has_text(traits.text.as_str(), "<locals>");
        let external = !in_locals && !attr_module.same(owner_name);
        let imported = external && (traits.is_submodule || traits.is_class || traits.is_function
            || traits.is_method);
        if consider_import && imported {
            AttributeVariant::Import
        } else if traits.is_submodule {
            AttributeVariant::Module
        } else if traits.is_class {
            AttributeVariant::Class
        } else if traits.is_builtin_function || traits.is_function {
            AttributeVariant::Function
        } else if traits.is_method {
            AttributeVariant::Method
        } else if closure {
            AttributeVariant::Closure
        } else if marker {
            AttributeVariant::TypeVar
        } else {
            AttributeVariant::Property
        }
    }
}

/// A class is never taken for a function, nor a module for a class: where
/// several tests hold of one attribute, the earlier one decides.
pub proof fn lemma_classify_priority(
    t: AttributeTraitsView,
    attr_module: PathView,
    owner_name: PathView,
)
    ensures
        t.is_submodule ==> classify(t, attr_module, owner_name, false) == AttributeVariant::Module,
        !t.is_submodule && t.is_class ==> classify(t, attr_module, owner_name, false)
            == AttributeVariant::Class,
        classify(t, attr_module, owner_name, false) != AttributeVariant::Import,
        classify(t, attr_module, owner_name, true) == AttributeVariant::Import <==> is_imported(
            t,
            attr_module,
            owner_name,
        ),
        !is_imported(t, attr_module, owner_name) ==> classify(t, attr_module, owner_name, true)
            == classify(t, attr_module, owner_name, false),
{
}

} // verus!
