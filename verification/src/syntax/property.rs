//! Properties: the attributes of a module or class that are plain values.

use crate::config::Config;
use crate::emit::{
    doc_attribute, doc_attribute_of, keep_docstring, kept_docstring, literal, string_literal,
};
use crate::error::PyBindgenError;
use crate::ident::{py_form, rs_form, ident_accepted, Ident};
use crate::model::{copy_opt, same_opt, view_opt, Model};
use crate::naming::{is_taken, taken};
use crate::path::{import_expression, Path, PathView};
use crate::syntax::function::SignatureFacts;
use crate::syntax::function_definition::{
    FunctionImplementation, FunctionImplementationView, TraitMethod, TraitMethodView,
};
use crate::syntax::function_generate::holder;
use crate::text::views;
use crate::typing::annotation::{annotation_type, Annotation};
use crate::typing::into_rs::{preprocessing, rs_borrowed, rs_owned};
use crate::typing::local_types::{LocalTypeView, LocalTypes};
use crate::typing::{Type, TypeView};
use vstd::prelude::*;

verus! {

/// What a property belongs to.
#[derive(Debug, Clone, Copy, PartialEq, Eq, Structural)]
pub enum PropertyOwner {
    Module,
    Class,
}

/// An attribute that is read, and perhaps written, as a value.
#[derive(Debug)]
pub struct Property {
    pub name: Path,
    pub owner: PropertyOwner,
    pub is_mutable: bool,
    /// The type of the value that is read.
    pub annotation: Type,
    /// The type of the value that is written.
    pub setter_annotation: Type,
    pub docstring: Option<String>,
    pub setter_docstring: Option<String>,
}

/// [`Property`] with its texts as sequences.
pub struct PropertyView {
    pub name: PathView,
    pub owner: PropertyOwner,
    pub is_mutable: bool,
    pub annotation: TypeView,
    pub setter_annotation: TypeView,
    pub docstring: Option<Seq<char>>,
    pub setter_docstring: Option<Seq<char>>,
}

impl View for Property {
    type V = PropertyView;

    open spec fn view(&self) -> PropertyView {
        PropertyView {
            name: self.name@,
            owner: self.owner,
            is_mutable: self.is_mutable,
            annotation: self.annotation@,
            setter_annotation: self.setter_annotation@,
            docstring: view_opt(self.docstring),
            setter_docstring: view_opt(self.setter_docstring),
        }
    }
}

impl Model for Property {
    fn copy(&self) -> (r: Property) {
        Property {
            name: self.name.copy(),
            owner: self.owner,
            is_mutable: self.is_mutable,
            annotation: self.annotation.copy(),
            setter_annotation: self.setter_annotation.copy(),
            docstring: copy_opt(&self.docstring),
            setter_docstring: copy_opt(&self.setter_docstring),
        }
    }

    fn equals(&self, other: &Property) -> (r: bool) {
        self.name.equals(&other.name) && self.owner == other.owner && self.is_mutable
            == other.is_mutable && self.annotation.equals(&other.annotation)
            && self.setter_annotation.equals(&other.setter_annotation) && same_opt(
            &self.docstring,
            &other.docstring,
        ) && same_opt(&self.setter_docstring, &other.setter_docstring)
    }
}

impl Clone for Property {
    fn clone(&self) -> (r: Property)
        ensures
            r@ == self@,
    {
        self.copy()
    }
}

impl PartialEq for Property {
    fn eq(&self, other: &Property) -> (r: bool) {
        self.equals(other)
    }
}

impl Eq for Property {

}

impl vstd::std_specs::cmp::PartialEqSpecImpl for Property {
    open spec fn obeys_eq_spec() -> bool {
        true
    }

    open spec fn eq_spec(&self, other: &Property) -> bool {
        self@ == other@
    }
}

/// What the runtime tells about the function that reads or writes a
/// property.
#[derive(Debug)]
pub struct AccessorFacts {
    /// The docstring in its printed form.
    pub doc: String,
    /// The signature, where the runtime can tell it.
    pub signature: Option<SignatureFacts>,
}

/// What the runtime tells about a property.
#[derive(Debug)]
pub struct PropertyFacts {
    /// The class of the value.
    pub value_type: Annotation,
    /// The function that reads the property, where it names one.
    pub getter: Option<AccessorFacts>,
    /// The function that writes the property, where it has one.
    pub setter: Option<AccessorFacts>,
}

/// The type of the value that is read: that of the getter's result where the
/// getter tells a signature, else that of the value's class.
pub open spec fn getter_type(facts: &PropertyFacts) -> TypeView {
    match &facts.getter {
        Some(g) => match &g.signature {
            Some(s) => match &s.return_annotation {
                Some(a) => annotation_type(a),
                None => TypeView::Unknown,
            },
            None => annotation_type(&facts.value_type),
        },
        None => annotation_type(&facts.value_type),
    }
}

/// The type of the value that is written: that of the setter's second
/// parameter, as far as the setter tells it.
pub open spec fn setter_type(s: &AccessorFacts) -> TypeView {
    match &s.signature {
        Some(sig) => if sig.parameters.len() >= 2 {
            match &sig.parameters[1].annotation {
                Some(a) => annotation_type(a),
                None => TypeView::Unknown,
            }
        } else {
            TypeView::Unknown
        },
        None => TypeView::Unknown,
    }
}

/// The docstring of the getter.
pub open spec fn getter_doc(facts: &PropertyFacts) -> Option<Seq<char>> {
    match &facts.getter {
        Some(g) => kept_docstring(g.doc@),
        None => None,
    }
}

/// `first`, or `second` where `first` is absent.
pub open spec fn or_else(first: Option<Seq<char>>, second: Option<Seq<char>>) -> Option<Seq<char>> {
    if first is Some {
        first
    } else {
        second
    }
}

/// The property called `name` of which the runtime tells `facts`.
///
/// A property of a module can always be written, with values of the type
/// that is read. A property of a class can be written where it has a setter.
/// Its getter and its setter each borrow the docstring of the other where
/// they have none of their own.
pub open spec fn parsed_property(
    facts: &PropertyFacts,
    name: PathView,
    owner: PropertyOwner,
) -> PropertyView {
    match owner {
        PropertyOwner::Module => PropertyView {
            name,
            owner,
            is_mutable: true,
            annotation: annotation_type(&facts.value_type),
            setter_annotation: annotation_type(&facts.value_type),
            docstring: None,
            setter_docstring: None,
        },
        PropertyOwner::Class => match &facts.setter {
            Some(s) => PropertyView {
                name,
                owner,
                is_mutable: true,
                annotation: getter_type(facts),
                setter_annotation: setter_type(s),
                docstring: or_else(getter_doc(facts), kept_docstring(s.doc@)),
                setter_docstring: or_else(kept_docstring(s.doc@), getter_doc(facts)),
            },
            None => PropertyView {
                name,
                owner,
                is_mutable: false,
                annotation: getter_type(facts),
                setter_annotation: TypeView::Unknown,
                docstring: getter_doc(facts),
                setter_docstring: None,
            },
        },
    }
}

/// The name of the function that reads the property `name` in a scope that
/// defines `scope`: the name itself where it is an identifier and free, else
/// the name behind `get_` where that is free, else none.
pub open spec fn getter_token(name: Seq<char>, scope: Seq<Seq<char>>) -> Option<Seq<char>> {
    if ident_accepted(name) && !taken(scope, name) {
        Some(name)
    } else if taken(scope, rs_form("get_"@ + py_form(name))) {
        None
    } else {
        Some(rs_form("get_"@ + py_form(name)))
    }
}

/// The name of the function that writes the property `name`: the name behind
/// `set_` where that is free in the scope.
pub open spec fn setter_token(name: Seq<char>, scope: Seq<Seq<char>>) -> Option<Seq<char>> {
    if taken(scope, rs_form("set_"@ + py_form(name))) {
        None
    } else {
        Some(rs_form("set_"@ + py_form(name)))
    }
}

/// Whether writing the getter fails: its name is picked and is no
/// identifier.
pub open spec fn getter_fails(p: PropertyView, scope: Seq<Seq<char>>) -> bool {
    getter_token(p.name.segments.last(), scope) matches Some(t) && !ident_accepted(t)
}

/// Whether writing the setter fails: its name is picked and is no
/// identifier.
pub open spec fn setter_fails(p: PropertyView, scope: Seq<Seq<char>>) -> bool {
    setter_token(p.name.segments.last(), scope) matches Some(t) && !ident_accepted(t)
}

/// The function that reads the property, as declared and as implemented.
pub open spec fn getter_code(
    p: PropertyView,
    generate_docs: bool,
    scope: Seq<Seq<char>>,
    loc: Seq<LocalTypeView>,
    importable: Seq<Seq<char>>,
) -> TraitMethodView {
    match getter_token(p.name.segments.last(), scope) {
        None => TraitMethodView { trait_fn: Seq::empty(), impl_fn: Seq::empty() },
        Some(t) => {
            let attr = literal(py_form(p.name.segments.last()));
            let result = rs_owned(p.annotation, loc);
            match p.owner {
                PropertyOwner::Module => TraitMethodView {
                    trait_fn: Seq::empty(),
                    impl_fn: doc_attribute(generate_docs, p.docstring) + "fn "@ + t
                        + "<'py>(py: ::pyo3::marker::Python<'py>) -> ::pyo3::PyResult<"@ + result
                        + "> {\n::pyo3::types::PyAnyMethods::extract(&::pyo3::types::PyAnyMethods::getattr("@
                        + import_expression(holder(p.name), importable)
                        + ".as_any(), ::pyo3::intern!(py, "@ + attr + "))?)\n}\n"@,
                },
                PropertyOwner::Class => TraitMethodView {
                    trait_fn: "fn "@ + t + "<'py>(&'py self) -> ::pyo3::PyResult<"@ + result
                        + ">;\n"@,
                    impl_fn: doc_attribute(generate_docs, p.docstring) + "fn "@ + t
                        + "<'py>(&'py self) -> ::pyo3::PyResult<"@ + result
                        + "> {\n::pyo3::types::PyAnyMethods::extract(&::pyo3::types::PyAnyMethods::getattr(self.as_any(), ::pyo3::intern!(self.py(), "@
                        + attr + "))?)\n}\n"@,
                },
            }
        },
    }
}

/// The function that writes the property, as declared and as implemented. It
/// takes a value of the type that the setter declares.
pub open spec fn setter_code(
    p: PropertyView,
    generate_docs: bool,
    scope: Seq<Seq<char>>,
    loc: Seq<LocalTypeView>,
    importable: Seq<Seq<char>>,
) -> TraitMethodView {
    match setter_token(p.name.segments.last(), scope) {
        None => TraitMethodView { trait_fn: Seq::empty(), impl_fn: Seq::empty() },
        Some(t) => {
            let attr = literal(py_form(p.name.segments.last()));
            let value = rs_borrowed(p.setter_annotation, loc);
            let prepare = preprocessing(p.setter_annotation, "p_value"@, loc);
            match p.owner {
                PropertyOwner::Module => TraitMethodView {
                    trait_fn: Seq::empty(),
                    impl_fn: doc_attribute(generate_docs, p.setter_docstring) + "fn "@ + t
                        + "<'py>(py: ::pyo3::marker::Python<'py>, p_value: "@ + value
                        + ") -> ::pyo3::PyResult<()> {\n"@ + prepare
                        + "::pyo3::types::PyAnyMethods::setattr("@ + import_expression(
                        holder(p.name),
                        importable,
                    ) + ".as_any(), ::pyo3::intern!(py, "@ + attr + "), p_value)\n}\n"@,
                },
                PropertyOwner::Class => TraitMethodView {
                    trait_fn: "fn "@ + t + "<'py>(&'py self, p_value: "@ + value
                        + ") -> ::pyo3::PyResult<()>;\n"@,
                    impl_fn: doc_attribute(generate_docs, p.setter_docstring) + "fn "@ + t
                        + "<'py>(&'py self, p_value: "@ + value
                        + ") -> ::pyo3::PyResult<()> {\nlet py = self.py();\n"@ + prepare
                        + "::pyo3::types::PyAnyMethods::setattr(self.as_any(), ::pyo3::intern!(py, "@
                        + attr + "), p_value)\n}\n"@,
                },
            }
        },
    }
}

/// `code` made public, or nothing where there is no code.
pub open spec fn public(code: Seq<char>) -> Seq<char> {
    if code.len() == 0 {
        code
    } else {
        "pub "@ + code
    }
}

/// The code of the setter where the property can be written, else no code.
pub open spec fn setter_if_mutable(
    p: PropertyView,
    generate_docs: bool,
    scope: Seq<Seq<char>>,
    loc: Seq<LocalTypeView>,
    importable: Seq<Seq<char>>,
) -> TraitMethodView {
    if p.is_mutable {
        setter_code(p, generate_docs, scope, loc, importable)
    } else {
        TraitMethodView { trait_fn: Seq::empty(), impl_fn: Seq::empty() }
    }
}

/// Whether generating the code for the property fails.
pub open spec fn property_fails(p: PropertyView, scope: Seq<Seq<char>>) -> bool {
    getter_fails(p, scope) || (p.is_mutable && setter_fails(p, scope))
}

/// The generated code for the property: a getter, and a setter where the
/// property can be written. A property of a module becomes public functions,
/// a property of a class methods of its objects.
pub open spec fn property_code(
    p: PropertyView,
    generate_docs: bool,
    scope: Seq<Seq<char>>,
    loc: Seq<LocalTypeView>,
    importable: Seq<Seq<char>>,
) -> FunctionImplementationView {
    let g = getter_code(p, generate_docs, scope, loc, importable);
    let s = setter_if_mutable(p, generate_docs, scope, loc, importable);
    match p.owner {
        PropertyOwner::Module => FunctionImplementationView::Function(
            public(g.impl_fn) + public(s.impl_fn),
        ),
        PropertyOwner::Class => FunctionImplementationView::Method(
            TraitMethodView { trait_fn: g.trait_fn + s.trait_fn, impl_fn: g.impl_fn + s.impl_fn },
        ),
    }
}

/// Whether the path of a property says where it is found: a property of a
/// module lies in that module.
pub open spec fn property_placed(p: PropertyView) -> bool {
    &&& p.name.segments.len() > 0
    &&& p.owner == PropertyOwner::Module ==> p.name.segments.len() > 1
}

/// The name behind `prefix`, as an identifier.
fn prefixed(prefix: &str, name: &Ident) -> (id: Ident)
    ensures
        id@ == rs_form(prefix@ + py_form(name@)),
{
    let text = String::from_str(prefix).concat(name.as_py());
    Ident::from_py(text.as_str())
}

/// Makes `code` public.
fn make_public(code: &str) -> (s: String)
    ensures
        s@ == public(code@),
{
    if code.unicode_len() == 0 {
        let s = String::new();
        assert(s@ =~= code@);
        s
    } else {
        String::from_str("pub ").concat(code)
    }
}

impl Property {
    /// Reads the property called `name` from what the runtime tells about
    /// it.
    pub fn parse(_cfg: &Config, facts: &PropertyFacts, name: Path, owner: PropertyOwner) -> (p:
        Property)
        ensures
            p@ == parsed_property(facts, name@, owner),
    {
        match owner {
            PropertyOwner::Module => {
                let annotation = Type::from_annotation(&facts.value_type);
                let setter_annotation = annotation.copy();
                Property {
                    name,
                    owner,
                    is_mutable: true,
                    annotation,
                    setter_annotation,
                    docstring: None,
                    setter_docstring: None,
                }
            },
            PropertyOwner::Class => {
                let annotation = match &facts.getter {
                    Some(g) => match &g.signature {
                        Some(s) => match &s.return_annotation {
                            Some(a) => Type::from_annotation(a),
                            None => Type::Unknown,
                        },
                        None => Type::from_annotation(&facts.value_type),
                    },
                    None => Type::from_annotation(&facts.value_type),
                };
                let docstring = match &facts.getter {
                    Some(g) => keep_docstring(g.doc.as_str()),
                    None => None,
                };
                match &facts.setter {
                    Some(s) => {
                        let setter_annotation = match &s.signature {
                            Some(sig) => {
                                if sig.parameters.len() >= 2 {
                                    match &sig.parameters[1].annotation {
                                        Some(a) => Type::from_annotation(a),
                                        None => Type::Unknown,
                                    }
                                } else {
                                    Type::Unknown
                                }
                            },
                            None => Type::Unknown,
                        };
                        let own = keep_docstring(s.doc.as_str());
                        let setter_docstring = if own.is_some() {
                            copy_opt(&own)
                        } else {
                            copy_opt(&docstring)
                        };
                        let docstring = if docstring.is_some() {
                            docstring
                        } else {
                            own
                        };
                        Property {
                            name,
                            owner,
                            is_mutable: true,
                            annotation,
                            setter_annotation,
                            docstring,
                            setter_docstring,
                        }
                    },
                    None => Property {
                        name,
                        owner,
                        is_mutable: false,
                        annotation,
                        setter_annotation: Type::Unknown,
                        docstring,
                        setter_docstring: None,
                    },
                }
            },
        }
    }

    /// Whether the path of the property says where it is found.
    pub open spec fn reachable(&self) -> bool {
        property_placed(self@)
    }

    /// Tests whether the path of the property says where it is found.
    pub fn is_reachable(&self) -> (r: bool)
        ensures
            r == self.reachable(),
    {
        self.name.len() > 0 && (self.owner != PropertyOwner::Module || self.name.len() > 1)
    }

    /// Picks the name of the function that reads the property.
    fn getter_ident(&self, scoped_function_idents: &Vec<Ident>) -> (r: Option<Ident>)
        requires
            self@.name.segments.len() > 0,
        ensures
            view_opt(r) == getter_token(self@.name.segments.last(), views(scoped_function_idents@)),
    {
        let name = self.name.name();
        if name.is_valid_rs() && !is_taken(scoped_function_idents, name) {
            Some(name.clone())
        } else {
            let alt = prefixed("get_", name);
            if is_taken(scoped_function_idents, &alt) {
                None
            } else {
                Some(alt)
            }
        }
    }

    /// The expression that fetches the module of the property.
    fn module_expression(&self, importable: &Vec<String>) -> (s: String)
        requires
            self@.name.segments.len() > 1,
        ensures
            s@ == import_expression(holder(self@.name), views(importable@)),
    {
        match self.name.parent() {
            Some(parent) => parent.import_quote(importable),
            None => String::new(),
        }
    }

    /// Writes the function that reads the property. It fails where the name
    /// picked for it is no identifier.
    pub fn generate_getter(
        &self,
        cfg: &Config,
        scoped_function_idents: &Vec<Ident>,
        local_types: &LocalTypes,
        importable: &Vec<String>,
    ) -> (r: Result<TraitMethod, PyBindgenError>)
        requires
            self.reachable(),
        ensures
            r is Err == getter_fails(self@, views(scoped_function_idents@)),
            r matches Ok(m) ==> m@ == getter_code(
                self@,
                cfg@.generate_docs,
                views(scoped_function_idents@),
                local_types@,
                views(importable@),
            ),
            r matches Err(e) ==> e is SynError,
    {
        let ident = match self.getter_ident(scoped_function_idents) {
            Some(id) => id,
            None => {
                return Ok(TraitMethod::empty());
            },
        };
        let t = match ident.to_token() {
            Ok(t) => t,
            Err(e) => {
                return Err(e);
            },
        };
        let attr = string_literal(self.name.name().as_py());
        let result = self.annotation.into_rs_owned(local_types);
        match self.owner {
            PropertyOwner::Module => {
                let mut code = doc_attribute_of(cfg, &self.docstring);
                code.append("fn ");
                code.append(t.as_str());
                code.append("<'py>(py: ::pyo3::marker::Python<'py>) -> ::pyo3::PyResult<");
                code.append(result.as_str());
                code.append(
                    "> {\n::pyo3::types::PyAnyMethods::extract(&::pyo3::types::PyAnyMethods::getattr(",
                );
                code.append(self.module_expression(importable).as_str());
                code.append(".as_any(), ::pyo3::intern!(py, ");
                code.append(attr.as_str());
                code.append("))?)\n}\n");
                Ok(TraitMethod { trait_fn: String::new(), impl_fn: code })
            },
            PropertyOwner::Class => {
                let mut head = String::from_str("fn ");
                head.append(t.as_str());
                head.append("<'py>(&'py self) -> ::pyo3::PyResult<");
                head.append(result.as_str());
                head.append(">;\n");
                let mut code = doc_attribute_of(cfg, &self.docstring);
                code.append("fn ");
                code.append(t.as_str());
                code.append("<'py>(&'py self) -> ::pyo3::PyResult<");
                code.append(result.as_str());
                code.append(
                    "> {\n::pyo3::types::PyAnyMethods::extract(&::pyo3::types::PyAnyMethods::getattr(self.as_any(), ::pyo3::intern!(self.py(), ",
                );
                code.append(attr.as_str());
                code.append("))?)\n}\n");
                Ok(TraitMethod { trait_fn: head, impl_fn: code })
            },
        }
    }

    /// Writes the function that writes the property. It fails where the name
    /// picked for it is no identifier.
    pub fn generate_setter(
        &self,
        cfg: &Config,
        scoped_function_idents: &Vec<Ident>,
        local_types: &LocalTypes,
        importable: &Vec<String>,
    ) -> (r: Result<TraitMethod, PyBindgenError>)
        requires
            self.reachable(),
        ensures
            r is Err == setter_fails(self@, views(scoped_function_idents@)),
            r matches Ok(m) ==> m@ == setter_code(
                self@,
                cfg@.generate_docs,
                views(scoped_function_idents@),
                local_types@,
                views(importable@),
            ),
            r matches Err(e) ==> e is SynError,
    {
        let ident = prefixed("set_", self.name.name());
        if is_taken(scoped_function_idents, &ident) {
            return Ok(TraitMethod::empty());
        }
        let t = match ident.to_token() {
            Ok(t) => t,
            Err(e) => {
                return Err(e);
            },
        };
        let attr = string_literal(self.name.name().as_py());
        let value = self.setter_annotation.into_rs_borrowed(local_types);
        let prepare = self.setter_annotation.preprocess_borrowed("p_value", local_types);
        match self.owner {
            PropertyOwner::Module => {
                let mut code = doc_attribute_of(cfg, &self.setter_docstring);
                code.append("fn ");
                code.append(t.as_str());
                code.append("<'py>(py: ::pyo3::marker::Python<'py>, p_value: ");
                code.append(value.as_str());
                code.append(") -> ::pyo3::PyResult<()> {\n");
                code.append(prepare.as_str());
                code.append("::pyo3::types::PyAnyMethods::setattr(");
                code.append(self.module_expression(importable).as_str());
                code.append(".as_any(), ::pyo3::intern!(py, ");
                code.append(attr.as_str());
                code.append("), p_value)\n}\n");
                Ok(TraitMethod { trait_fn: String::new(), impl_fn: code })
            },
            PropertyOwner::Class => {
                let mut head = String::from_str("fn ");
                head.append(t.as_str());
                head.append("<'py>(&'py self, p_value: ");
                head.append(value.as_str());
                head.append(") -> ::pyo3::PyResult<()>;\n");
                let mut code = doc_attribute_of(cfg, &self.setter_docstring);
                code.append("fn ");
                code.append(t.as_str());
                code.append("<'py>(&'py self, p_value: ");
                code.append(value.as_str());
                code.append(") -> ::pyo3::PyResult<()> {\nlet py = self.py();\n");
                code.append(prepare.as_str());
                code.append(
                    "::pyo3::types::PyAnyMethods::setattr(self.as_any(), ::pyo3::intern!(py, ",
                );
                code.append(attr.as_str());
                code.append("), p_value)\n}\n");
                Ok(TraitMethod { trait_fn: head, impl_fn: code })
            },
        }
    }

    /// Writes the code for the property: a getter, and a setter where the
    /// property can be written.
    pub fn generate(
        &self,
        cfg: &Config,
        scoped_function_idents: &Vec<Ident>,
        local_types: &LocalTypes,
        importable: &Vec<String>,
    ) -> (r: Result<FunctionImplementation, PyBindgenError>)
        requires
            self.reachable(),
        ensures
            r is Err == property_fails(self@, views(scoped_function_idents@)),
            r matches Ok(code) ==> code@ == property_code(
                self@,
                cfg@.generate_docs,
                views(scoped_function_idents@),
                local_types@,
                views(importable@),
            ),
            r matches Err(e) ==> e is SynError,
    {
        let g = match self.generate_getter(cfg, scoped_function_idents, local_types, importable) {
            Ok(g) => g,
            Err(e) => {
                return Err(e);
            },
        };
        let s = if self.is_mutable {
            match self.generate_setter(cfg, scoped_function_idents, local_types, importable) {
                Ok(s) => s,
                Err(e) => {
                    return Err(e);
                },
            }
        } else {
            TraitMethod::empty()
        };
        match self.owner {
            PropertyOwner::Module => {
                let mut code = make_public(g.impl_fn.as_str());
                code.append(make_public(s.impl_fn.as_str()).as_str());
                Ok(FunctionImplementation::Function(code))
            },
            PropertyOwner::Class => {
                let mut trait_fn = g.trait_fn;
                trait_fn.append(s.trait_fn.as_str());
                let mut impl_fn = g.impl_fn;
                impl_fn.append(s.impl_fn.as_str());
                Ok(
                    FunctionImplementation::Method(TraitMethod { trait_fn, impl_fn }),
                )
            },
        }
    }
}

/// A property that has only a getter is read only; one that has a setter is
/// written with values of the type that the setter declares, whatever the
/// getter returns; and a property of a module can always be written.
pub proof fn lemma_property_symmetry(facts: &PropertyFacts, name: PathView)
    ensures
        parsed_property(facts, name, PropertyOwner::Module).is_mutable,
        parsed_property(facts, name, PropertyOwner::Class).is_mutable == facts.setter is Some,
        facts.setter matches Some(s) ==> parsed_property(
            facts,
            name,
            PropertyOwner::Class,
        ).setter_annotation == setter_type(&s),
        parsed_property(facts, name, PropertyOwner::Class).annotation == getter_type(facts),
{
}

/// The code of a property that cannot be written holds a getter only, and
/// the getter and the setter of one that can be written are each written
/// with the type of their own.
pub proof fn lemma_property_code_symmetry(
    p: PropertyView,
    generate_docs: bool,
    scope: Seq<Seq<char>>,
    loc: Seq<LocalTypeView>,
    importable: Seq<Seq<char>>,
)
    requires
        p.owner == PropertyOwner::Class,
    ensures
        !p.is_mutable ==> property_code(p, generate_docs, scope, loc, importable)
            == FunctionImplementationView::Method(
            getter_code(p, generate_docs, scope, loc, importable),
        ),
        p.is_mutable ==> property_code(p, generate_docs, scope, loc, importable)
            == FunctionImplementationView::Method(
            TraitMethodView {
                trait_fn: getter_code(p, generate_docs, scope, loc, importable).trait_fn
                    + setter_code(p, generate_docs, scope, loc, importable).trait_fn,
                impl_fn: getter_code(p, generate_docs, scope, loc, importable).impl_fn
                    + setter_code(p, generate_docs, scope, loc, importable).impl_fn,
            },
        ),
{
    let g = getter_code(p, generate_docs, scope, loc, importable);
    assert(g.trait_fn + Seq::<char>::empty() =~= g.trait_fn);
    assert(g.impl_fn + Seq::<char>::empty() =~= g.impl_fn);
}

/// The code of a property of a module is a public function that reads it
/// and, behind it, a public function that writes it.
pub proof fn lemma_module_property_code(
    p: PropertyView,
    generate_docs: bool,
    scope: Seq<Seq<char>>,
    loc: Seq<LocalTypeView>,
    importable: Seq<Seq<char>>,
)
    requires
        p.owner == PropertyOwner::Module,
        p.is_mutable,
    ensures
        property_code(p, generate_docs, scope, loc, importable)
            == FunctionImplementationView::Function(
            public(getter_code(p, generate_docs, scope, loc, importable).impl_fn) + public(
                setter_code(p, generate_docs, scope, loc, importable).impl_fn,
            ),
        ),
{
}

} // verus!
