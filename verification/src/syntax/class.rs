//! Classes: how they are read from their namespace, and how the type that
//! stands for them is written.

use crate::config::{attr_allowed, Config, ConfigView};
use crate::emit::{
    doc_attribute, doc_attribute_of, keep_docstring, kept_docstring, literal, string_literal,
};
use crate::ident::{py_form, rs_form, ident_accepted, Ident};
use crate::model::{copy_list, copy_opt, same_list, same_opt, view_opt, Model};
use crate::path::{path_from_py, path_to_py, Path, PathView};
use crate::syntax::attribute_variant::{classify, AttributeTraits, AttributeVariant};
use crate::syntax::function::{
    parsed_function, Function, FunctionFacts, FunctionType, FunctionTypeView, FunctionView,
    MethodType,
};
use crate::syntax::function_definition::{FunctionImplementation, FunctionImplementationView};
use crate::syntax::function_generate::{
    function_code, function_fails, function_placed, substitute, substitute_for,
};
use crate::syntax::property::{
    parsed_property, property_code, property_fails, property_placed, Property, PropertyFacts,
    PropertyOwner, PropertyView,
};
use crate::text::{push_item, views};
use crate::typing::local_types::{LocalTypeView, LocalTypes};
use vstd::prelude::*;

verus! {

/// A class with its methods and properties.
#[derive(Debug)]
pub struct Class {
    pub name: Path,
    pub methods: Vec<Function>,
    pub properties: Vec<Property>,
    pub docstring: Option<String>,
}

/// [`Class`] with its texts and lists as sequences.
pub struct ClassView {
    pub name: PathView,
    pub methods: Seq<FunctionView>,
    pub properties: Seq<PropertyView>,
    pub docstring: Option<Seq<char>>,
}

impl View for Class {
    type V = ClassView;

    open spec fn view(&self) -> ClassView {
        ClassView {
            name: self.name@,
            methods: views(self.methods@),
            properties: views(self.properties@),
            docstring: view_opt(self.docstring),
        }
    }
}

impl Model for Class {
    fn copy(&self) -> (r: Class) {
        Class {
            name: self.name.copy(),
            methods: copy_list(&self.methods),
            properties: copy_list(&self.properties),
            docstring: copy_opt(&self.docstring),
        }
    }

    fn equals(&self, other: &Class) -> (r: bool) {
        self.name.equals(&other.name) && same_list(&self.methods, &other.methods) && same_list(
            &self.properties,
            &other.properties,
        ) && same_opt(&self.docstring, &other.docstring)
    }
}

impl Clone for Class {
    fn clone(&self) -> (r: Class)
        ensures
            r@ == self@,
    {
        self.copy()
    }
}

impl PartialEq for Class {
    fn eq(&self, other: &Class) -> (r: bool) {
        self.equals(other)
    }
}

impl Eq for Class {

}

impl vstd::std_specs::cmp::PartialEqSpecImpl for Class {
    open spec fn obeys_eq_spec() -> bool {
        true
    }

    open spec fn eq_spec(&self, other: &Class) -> bool {
        self@ == other@
    }
}

/// What the runtime tells about one attribute of a class.
#[derive(Debug)]
pub struct MemberFacts {
    pub name: String,
    /// The module that defines the attribute, empty where none is known.
    pub module: String,
    pub traits: AttributeTraits,
    /// What is known of the attribute as a function.
    pub function: Option<FunctionFacts>,
    /// What is known of the attribute as a property.
    pub property: Option<PropertyFacts>,
}

/// What the runtime tells about a class.
#[derive(Debug)]
pub struct ClassFacts {
    /// The docstring in its printed form.
    pub doc: String,
    /// The attributes in the order in which the runtime lists them.
    pub members: Vec<MemberFacts>,
}

/// Whether no attribute before position `k` has the name of the attribute at
/// position `k`.
pub open spec fn first_of_name(names: Seq<Seq<char>>, k: int) -> bool {
    forall|j: int| 0 <= j < k ==> rs_form(#[trigger] names[j]) != rs_form(names[k])
}

/// The names of the members.
pub open spec fn member_names(members: Seq<MemberFacts>) -> Seq<Seq<char>> {
    Seq::new(members.len(), |i: int| members[i].name@)
}

/// The kind of method that the name of an attribute tells.
pub open spec fn method_kind(name: Seq<char>) -> MethodType {
    if py_form(rs_form(name)) == "__init__"@ {
        MethodType::Constructor
    } else if py_form(rs_form(name)) == "__call__"@ {
        MethodType::Callable
    } else {
        MethodType::Unknown
    }
}

/// Whether the member at position `k` is looked at: it is the first of its
/// name, and it passes the filter on names or is the constructor or the call
/// operator.
pub open spec fn member_considered(cfg: ConfigView, members: Seq<MemberFacts>, k: int) -> bool {
    let m = members[k];
    first_of_name(member_names(members), k) && (attr_allowed(
        cfg,
        rs_form(m.name@),
        path_from_py(m.module@).segments,
    ) || method_kind(m.name@) != MethodType::Unknown)
}

/// The path of the attribute `name` of the scope `owner`.
pub open spec fn member_path(owner: PathView, name: Seq<char>) -> PathView {
    PathView { leading_colon: owner.leading_colon, segments: owner.segments.push(rs_form(name)) }
}

/// The kind of the member `m` of the class `owner`.
pub open spec fn member_variant(m: &MemberFacts, owner: PathView) -> AttributeVariant {
    classify(m.traits@, path_from_py(m.module@), owner, false)
}

/// The method that the member at position `k` is, if it is one. A method
/// of which the runtime tells no signature is passed over.
pub open spec fn member_method(
    cfg: ConfigView,
    members: Seq<MemberFacts>,
    owner: PathView,
    k: int,
) -> Option<FunctionView> {
    let m = members[k];
    let v = member_variant(&m, owner);
    if member_considered(cfg, members, k) && (v == AttributeVariant::Function || v
        == AttributeVariant::Method) {
        match &m.function {
            Some(facts) => parsed_function(
                facts,
                member_path(owner, m.name@),
                FunctionTypeView::Method { class_path: owner, typ: method_kind(m.name@) },
            ),
            None => None,
        }
    } else {
        None
    }
}

/// The property that the member at position `k` is, if it is one.
pub open spec fn member_property(
    cfg: ConfigView,
    members: Seq<MemberFacts>,
    owner: PathView,
    k: int,
) -> Option<PropertyView> {
    let m = members[k];
    if member_considered(cfg, members, k) && member_variant(&m, owner)
        == AttributeVariant::Property {
        match &m.property {
            Some(facts) => Some(
                parsed_property(facts, member_path(owner, m.name@), PropertyOwner::Class),
            ),
            None => None,
        }
    } else {
        None
    }
}

/// The methods among the first `n` members.
pub open spec fn class_methods(
    cfg: ConfigView,
    members: Seq<MemberFacts>,
    owner: PathView,
    n: int,
) -> Seq<FunctionView>
    decreases n,
{
    if n <= 0 {
        Seq::empty()
    } else {
        match member_method(cfg, members, owner, n - 1) {
            Some(f) => class_methods(cfg, members, owner, n - 1).push(f),
            None => class_methods(cfg, members, owner, n - 1),
        }
    }
}

/// The properties among the first `n` members.
pub open spec fn class_properties(
    cfg: ConfigView,
    members: Seq<MemberFacts>,
    owner: PathView,
    n: int,
) -> Seq<PropertyView>
    decreases n,
{
    if n <= 0 {
        Seq::empty()
    } else {
        match member_property(cfg, members, owner, n - 1) {
            Some(p) => class_properties(cfg, members, owner, n - 1).push(p),
            None => class_properties(cfg, members, owner, n - 1),
        }
    }
}

/// The class called `name` of which the runtime tells `facts`. Of its
/// attributes, the functions and methods become methods and the plain values
/// properties; modules, classes, closures and type markers inside a class
/// are left out.
pub open spec fn parsed_class(cfg: ConfigView, facts: &ClassFacts, name: PathView) -> ClassView {
    ClassView {
        name,
        methods: class_methods(cfg, facts.members@, name, facts.members.len() as int),
        properties: class_properties(cfg, facts.members@, name, facts.members.len() as int),
        docstring: kept_docstring(facts.doc@),
    }
}

/// The name of the generated type for the class `name`: the name itself
/// where it is an identifier, else a substitute where that is one.
pub open spec fn class_token(name: Seq<char>) -> Option<Seq<char>> {
    if ident_accepted(name) {
        Some(name)
    } else if ident_accepted(substitute("s_"@, name)) {
        Some(substitute("s_"@, name))
    } else {
        None
    }
}

/// The names of the functions `fs`.
pub open spec fn function_names(fs: Seq<FunctionView>) -> Seq<Seq<char>> {
    Seq::new(fs.len(), |i: int| fs[i].name.segments.last())
}

/// The names of the properties `ps`.
pub open spec fn property_names(ps: Seq<PropertyView>) -> Seq<Seq<char>> {
    Seq::new(ps.len(), |i: int| ps[i].name.segments.last())
}

/// The names that a member generated for the class `c` must not take: those
/// of its methods and of its properties.
pub open spec fn class_scope(c: ClassView) -> Seq<Seq<char>> {
    function_names(c.methods) + property_names(c.properties)
}

/// Whether a method of kind `kind` is among `fs`.
pub open spec fn has_method_of_kind(fs: Seq<FunctionView>, kind: MethodType) -> bool {
    exists|i: int| 0 <= i < fs.len() && kind_of_method((#[trigger] fs[i]).typ) == Some(kind)
}

/// The kind of a method, or none for a function that is no method.
pub open spec fn kind_of_method(typ: FunctionTypeView) -> Option<MethodType> {
    match typ {
        FunctionTypeView::Method { class_path, typ } => Some(typ),
        _ => None,
    }
}

/// The names that the properties of a class must not take: those of its
/// methods, and `new` and `call` where the class has a constructor and a
/// call operator.
pub open spec fn property_scope(fs: Seq<FunctionView>) -> Seq<Seq<char>> {
    function_names(fs) + (if has_method_of_kind(fs, MethodType::Constructor) {
        seq![rs_form("new"@)]
    } else {
        Seq::empty()
    }) + (if has_method_of_kind(fs, MethodType::Callable) {
        seq![rs_form("call"@)]
    } else {
        Seq::empty()
    })
}

/// The generated code of the members of a class, by where it goes.
pub struct MemberCode {
    /// What is called on the class.
    pub functions: Seq<char>,
    /// The declarations of what is called on an object.
    pub trait_fns: Seq<char>,
    /// The implementations of what is called on an object.
    pub impl_fns: Seq<char>,
}

/// `code` with the code `more` of one more member.
pub open spec fn with_member(code: MemberCode, more: FunctionImplementationView) -> MemberCode {
    match more {
        FunctionImplementationView::Function(f) => MemberCode {
            functions: code.functions + f,
            trait_fns: code.trait_fns,
            impl_fns: code.impl_fns,
        },
        FunctionImplementationView::Method(m) => MemberCode {
            functions: code.functions,
            trait_fns: code.trait_fns + m.trait_fn,
            impl_fns: code.impl_fns + m.impl_fn,
        },
    }
}

/// The code of the first `n` methods of `c`. A method whose code cannot be
/// written, because a name in it is no identifier, is left out.
pub open spec fn methods_code(
    c: ClassView,
    generate_docs: bool,
    loc: Seq<LocalTypeView>,
    importable: Seq<Seq<char>>,
    n: int,
) -> MemberCode
    decreases n,
{
    if n <= 0 {
        MemberCode { functions: Seq::empty(), trait_fns: Seq::empty(), impl_fns: Seq::empty() }
    } else if function_fails(c.methods[n - 1], class_scope(c)) {
        methods_code(c, generate_docs, loc, importable, n - 1)
    } else {
        with_member(
            methods_code(c, generate_docs, loc, importable, n - 1),
            function_code(c.methods[n - 1], generate_docs, class_scope(c), loc, importable),
        )
    }
}

/// The code of all methods of `c` with the code of its first `n` properties.
/// A property whose code cannot be written is left out.
pub open spec fn members_code(
    c: ClassView,
    generate_docs: bool,
    loc: Seq<LocalTypeView>,
    importable: Seq<Seq<char>>,
    n: int,
) -> MemberCode
    decreases n,
{
    if n <= 0 {
        methods_code(c, generate_docs, loc, importable, c.methods.len() as int)
    } else if property_fails(c.properties[n - 1], property_scope(c.methods)) {
        members_code(c, generate_docs, loc, importable, n - 1)
    } else {
        with_member(
            members_code(c, generate_docs, loc, importable, n - 1),
            property_code(
                c.properties[n - 1],
                generate_docs,
                property_scope(c.methods),
                loc,
                importable,
            ),
        )
    }
}

/// The name of the trait that declares what is called on objects of the
/// class whose type is called `token`.
pub open spec fn methods_trait(token: Seq<char>) -> Seq<char> {
    rs_form(py_form(token) + "Methods"@)
}

/// The generated code for the class `c`: a type that stands for its objects,
/// what is called on the class as functions of that type, and what is called
/// on an object as a trait of the objects. Nothing is generated where the
/// class has no name that can stand in generated code, and a member whose
/// code cannot be written is left out.
pub open spec fn class_code(
    c: ClassView,
    generate_docs: bool,
    loc: Seq<LocalTypeView>,
    importable: Seq<Seq<char>>,
) -> Seq<char> {
    match class_token(c.name.segments.last()) {
        None => Seq::empty(),
        Some(t) => {
            let code = members_code(c, generate_docs, loc, importable, c.properties.len() as int);
            doc_attribute(generate_docs, c.docstring) + "#[repr(transparent)]\npub struct "@ + t
                + "(::pyo3::PyAny);\n::pyo3::pyobject_native_type_named!("@ + t
                + ");\n::pyo3::pyobject_native_type_info!("@ + t
                + ", ::pyo3::pyobject_native_static_type_object!(::pyo3::ffi::PyBaseObject_Type), ::std::option::Option::Some("@
                + literal(path_to_py(c.name)) + "));\n::pyo3::pyobject_native_type_extract!("@ + t
                + ");\n#[automatically_derived]\nimpl "@ + t + " {\n"@ + code.functions
                + "}\npub trait "@ + methods_trait(t) + " {\n"@ + code.trait_fns
                + "}\n#[automatically_derived]\nimpl "@ + methods_trait(t)
                + " for ::pyo3::Bound<'_, "@ + t + "> {\n"@ + code.impl_fns + "}\n"@
        },
    }
}

/// Whether the paths in a class say where its members are found, and the
/// class has not more methods than can be counted.
pub open spec fn class_placed(c: ClassView) -> bool {
    &&& c.name.segments.len() > 0
    &&& forall|i: int| 0 <= i < c.methods.len() ==> function_placed(#[trigger] c.methods[i])
    &&& forall|i: int| 0 <= i < c.properties.len() ==> property_placed(#[trigger] c.properties[i])
    &&& c.methods.len() + c.properties.len() + 2 < usize::MAX
}

/// The generated code of members, by where it goes.
struct MemberText {
    functions: String,
    trait_fns: String,
    impl_fns: String,
}

impl MemberText {
    /// The texts written so far.
    spec fn code(&self) -> MemberCode {
        MemberCode {
            functions: self.functions@,
            trait_fns: self.trait_fns@,
            impl_fns: self.impl_fns@,
        }
    }

    /// Adds the code of one more member.
    fn add(&mut self, more: &FunctionImplementation)
        ensures
            final(self).code() == with_member(old(self).code(), more@),
    {
        match more {
            FunctionImplementation::Function(f) => {
                self.functions.append(f.as_str());
            },
            FunctionImplementation::Method(m) => {
                self.trait_fns.append(m.trait_fn.as_str());
                self.impl_fns.append(m.impl_fn.as_str());
            },
        }
    }
}

/// Whether the member at position `k` is the first of its name.
fn is_first_of_name(members: &Vec<MemberFacts>, k: usize) -> (r: bool)
    requires
        k < members.len(),
    ensures
        r == first_of_name(member_names(members@), k as int),
{
    let own = Ident::from_py(members[k].name.as_str());
    let mut j: usize = 0;
    while j < k
        invariant
            j <= k < members.len(),
            own@ == rs_form(members@[k as int].name@),
            forall|i: int|
                0 <= i < j ==> rs_form(#[trigger] member_names(members@)[i]) != rs_form(
                    member_names(members@)[k as int],
                ),
        decreases k - j,
    {
        if Ident::from_py(members[j].name.as_str()).equals(&own) {
            assert(member_names(members@)[j as int] == members@[j as int].name@);
            return false;
        }
        j += 1;
    }
    true
}

/// The kind of method that the name of an attribute tells.
fn method_kind_of(name: &Ident) -> (r: MethodType)
    ensures
        r == if py_form(name@) == "__init__"@ {
            MethodType::Constructor
        } else if py_form(name@) == "__call__"@ {
            MethodType::Callable
        } else {
            MethodType::Unknown
        },
{
    if name.is_py("__init__") {
        MethodType::Constructor
    } else if name.is_py("__call__") {
        MethodType::Callable
    } else {
        MethodType::Unknown
    }
}

impl Class {
    /// Reads the class called `name` from what the runtime tells about it.
    pub fn parse(cfg: &Config, facts: &ClassFacts, name: Path) -> (c: Class)
        ensures
            c@ == parsed_class(cfg@, facts, name@),
    {
        let mut methods: Vec<Function> = Vec::new();
        let mut properties: Vec<Property> = Vec::new();
        let mut k: usize = 0;
        assert(views(methods@) =~= Seq::<FunctionView>::empty());
        assert(views(properties@) =~= Seq::<PropertyView>::empty());
        while k < facts.members.len()
            invariant
                k <= facts.members.len(),
                views(methods@) == class_methods(cfg@, facts.members@, name@, k as int),
                views(properties@) == class_properties(cfg@, facts.members@, name@, k as int),
            decreases facts.members.len() - k,
        {
            let m = &facts.members[k];
            let attr_name = Ident::from_py(m.name.as_str());
            let attr_module = Path::from_py(m.module.as_str());
            let kind = method_kind_of(&attr_name);
            let considered = is_first_of_name(&facts.members, k) && (cfg.is_attr_allowed(
                &attr_name,
                &attr_module,
            ) || kind != MethodType::Unknown);
            if considered {
                let full = name.child(&attr_name);
                match AttributeVariant::determine(&m.traits, &attr_module, &name, false) {
                    AttributeVariant::Function | AttributeVariant::Method => {
                        match &m.function {
                            Some(ff) => {
                                match Function::parse(
                                    cfg,
                                    ff,
                                    full,
                                    FunctionType::Method { class_path: name.clone(), typ: kind },
                                ) {
                                    Some(f) => {
                                        push_item(&mut methods, f);
                                    },
                                    None => {},
                                }
                            },
                            None => {},
                        }
                    },
                    AttributeVariant::Property => {
                        match &m.property {
                            Some(pf) => {
                                let p = Property::parse(cfg, pf, full, PropertyOwner::Class);
                                push_item(&mut properties, p);
                            },
                            None => {},
                        }
                    },
                    _ => {},
                }
            }
            k += 1;
        }
        Class { name, methods, properties, docstring: keep_docstring(facts.doc.as_str()) }
    }

    /// Whether the paths in the class say where its members are found.
    pub open spec fn reachable(&self) -> bool {
        class_placed(self@)
    }

    /// Tests whether the paths in the class say where its members are found.
    pub fn is_reachable(&self) -> (r: bool)
        ensures
            r == self.reachable(),
    {
        if self.name.len() == 0 || self.methods.len() >= usize::MAX - 2 || self.properties.len()
            >= usize::MAX - 2 - self.methods.len() {
            return false;
        }
        let mut i: usize = 0;
        while i < self.methods.len()
            invariant
                i <= self.methods.len(),
                forall|j: int| 0 <= j < i ==> function_placed(#[trigger] self@.methods[j]),
            decreases self.methods.len() - i,
        {
            assert(self@.methods[i as int] == self.methods[i as int]@);
            if !self.methods[i].is_callable_by_path() {
                return false;
            }
            i += 1;
        }
        let mut k: usize = 0;
        while k < self.properties.len()
            invariant
                k <= self.properties.len(),
                forall|j: int| 0 <= j < k ==> property_placed(#[trigger] self@.properties[j]),
            decreases self.properties.len() - k,
        {
            assert(self@.properties[k as int] == self.properties[k as int]@);
            if !self.properties[k].is_reachable() {
                return false;
            }
            k += 1;
        }
        true
    }

    /// The names of the methods.
    fn method_names(&self) -> (names: Vec<Ident>)
        requires
            self.reachable(),
        ensures
            views(names@) == function_names(self@.methods),
            names.len() == self.methods.len(),
    {
        let mut names: Vec<Ident> = Vec::new();
        let mut i: usize = 0;
        assert(views(names@) =~= function_names(self@.methods).take(0));
        while i < self.methods.len()
            invariant
                i <= self.methods.len(),
                self.reachable(),
                names.len() == i,
                views(names@) == function_names(self@.methods).take(i as int),
            decreases self.methods.len() - i,
        {
            assert(self@.methods[i as int] == self.methods[i as int]@);
            assert(function_placed(self@.methods[i as int]));
            push_item(&mut names, self.methods[i].name.name().clone());
            assert(views(names@) =~= function_names(self@.methods).take(i as int + 1));
            i += 1;
        }
        assert(function_names(self@.methods).take(self.methods.len() as int) =~= function_names(
            self@.methods,
        ));
        names
    }

    /// The names of the methods and of the properties.
    fn member_names(&self) -> (names: Vec<Ident>)
        requires
            self.reachable(),
        ensures
            views(names@) == class_scope(self@),
            names.len() == self.methods.len() + self.properties.len(),
    {
        let mut names = self.method_names();
        let ghost first = views(names@);
        let ghost second = property_names(self@.properties);
        let mut i: usize = 0;
        assert(first + second.take(0) =~= first);
        while i < self.properties.len()
            invariant
                i <= self.properties.len(),
                self.reachable(),
                names.len() == self.methods.len() + i,
                first == function_names(self@.methods),
                second == property_names(self@.properties),
                views(names@) == first + second.take(i as int),
            decreases self.properties.len() - i,
        {
            assert(self@.properties[i as int] == self.properties[i as int]@);
            assert(property_placed(self@.properties[i as int]));
            push_item(&mut names, self.properties[i].name.name().clone());
            assert(views(names@) =~= first + second.take(i as int + 1));
            i += 1;
        }
        assert(second.take(self.properties.len() as int) =~= second);
        names
    }

    /// Whether the class has a method of kind `kind`.
    fn has_method(&self, kind: MethodType) -> (r: bool)
        ensures
            r == has_method_of_kind(self@.methods, kind),
    {
        let mut i: usize = 0;
        while i < self.methods.len()
            invariant
                i <= self.methods.len(),
                forall|j: int|
                    0 <= j < i ==> kind_of_method((#[trigger] self@.methods[j]).typ) != Some(kind),
            decreases self.methods.len() - i,
        {
            assert(self@.methods[i as int] == self.methods[i as int]@);
            match &self.methods[i].typ {
                FunctionType::Method { class_path, typ } => {
                    if *typ == kind {
                        return true;
                    }
                },
                _ => {},
            }
            i += 1;
        }
        false
    }

    /// Picks the name of the generated type.
    fn token(&self) -> (r: Option<String>)
        requires
            self@.name.segments.len() > 0,
        ensures
            view_opt(r) == class_token(self@.name.segments.last()),
    {
        let name = self.name.name();
        if name.is_valid_rs() {
            Some(name.as_rs().to_owned())
        } else {
            let alt = substitute_for("s_", name);
            if alt.is_valid_rs() {
                Some(alt.into_rs())
            } else {
                None
            }
        }
    }

    /// The names that the properties must not take.
    fn names_for_properties(&self) -> (scope: Vec<Ident>)
        requires
            self.reachable(),
        ensures
            views(scope@) == property_scope(self@.methods),
    {
        let mut scope = self.method_names();
        let ghost names = views(scope@);
        if self.has_method(MethodType::Constructor) {
            push_item(&mut scope, Ident::from_py("new"));
        }
        let ghost with_new = views(scope@);
        assert(with_new =~= names + (if has_method_of_kind(self@.methods, MethodType::Constructor) {
            seq![rs_form("new"@)]
        } else {
            Seq::empty()
        }));
        if self.has_method(MethodType::Callable) {
            push_item(&mut scope, Ident::from_py("call"));
        }
        assert(views(scope@) =~= property_scope(self@.methods));
        scope
    }

    /// Writes the code of the methods.
    fn write_methods(
        &self,
        cfg: &Config,
        local_types: &LocalTypes,
        importable: &Vec<String>,
    ) -> (text: MemberText)
        requires
            self.reachable(),
        ensures
            text.code() == methods_code(
                self@,
                cfg@.generate_docs,
                local_types@,
                views(importable@),
                self@.methods.len() as int,
            ),
    {
        let scope = self.member_names();
        let ghost c = self@;
        let mut text = MemberText {
            functions: String::new(),
            trait_fns: String::new(),
            impl_fns: String::new(),
        };
        let mut i: usize = 0;
        while i < self.methods.len()
            invariant
                i <= self.methods.len(),
                self.reachable(),
                c == self@,
                views(scope@) == class_scope(c),
                scope.len() == self.methods.len() + self.properties.len(),
                text.code() == methods_code(
                    c,
                    cfg@.generate_docs,
                    local_types@,
                    views(importable@),
                    i as int,
                ),
            decreases self.methods.len() - i,
        {
            assert(c.methods[i as int] == self.methods[i as int]@);
            assert(function_placed(c.methods[i as int]));
            match self.methods[i].generate(cfg, &scope, local_types, importable) {
                Ok(code) => {
                    text.add(&code);
                },
                Err(_) => {},
            }
            i += 1;
        }
        text
    }

    /// Writes the code of the properties behind that of the methods.
    fn write_properties(
        &self,
        cfg: &Config,
        local_types: &LocalTypes,
        importable: &Vec<String>,
        text: MemberText,
    ) -> (all: MemberText)
        requires
            self.reachable(),
            text.code() == methods_code(
                self@,
                cfg@.generate_docs,
                local_types@,
                views(importable@),
                self@.methods.len() as int,
            ),
        ensures
            all.code() == members_code(
                self@,
                cfg@.generate_docs,
                local_types@,
                views(importable@),
                self@.properties.len() as int,
            ),
    {
        let scope = self.names_for_properties();
        let ghost c = self@;
        let mut text = text;
        let mut k: usize = 0;
        while k < self.properties.len()
            invariant
                k <= self.properties.len(),
                self.reachable(),
                c == self@,
                views(scope@) == property_scope(c.methods),
                text.code() == members_code(
                    c,
                    cfg@.generate_docs,
                    local_types@,
                    views(importable@),
                    k as int,
                ),
            decreases self.properties.len() - k,
        {
            assert(c.properties[k as int] == self.properties[k as int]@);
            assert(property_placed(c.properties[k as int]));
            match self.properties[k].generate(cfg, &scope, local_types, importable) {
                Ok(code) => {
                    text.add(&code);
                },
                Err(_) => {},
            }
            k += 1;
        }
        text
    }

    /// Puts the code of the class together.
    fn assemble(&self, cfg: &Config, token: &str, text: &MemberText) -> (s: String)
        ensures
            s@ == doc_attribute(cfg@.generate_docs, self@.docstring)
                + "#[repr(transparent)]\npub struct "@ + token@
                + "(::pyo3::PyAny);\n::pyo3::pyobject_native_type_named!("@ + token@
                + ");\n::pyo3::pyobject_native_type_info!("@ + token@
                + ", ::pyo3::pyobject_native_static_type_object!(::pyo3::ffi::PyBaseObject_Type), ::std::option::Option::Some("@
                + literal(path_to_py(self@.name)) + "));\n::pyo3::pyobject_native_type_extract!("@
                + token@ + ");\n#[automatically_derived]\nimpl "@ + token@ + " {\n"@
                + text.code().functions + "}\npub trait "@ + methods_trait(token@) + " {\n"@
                + text.code().trait_fns + "}\n#[automatically_derived]\nimpl "@ + methods_trait(
                token@,
            ) + " for ::pyo3::Bound<'_, "@ + token@ + "> {\n"@ + text.code().impl_fns + "}\n"@,
    {
        let methods_name = Ident::from_py(
            String::from_str(Ident::rs_as_py(token)).concat("Methods").as_str(),
        );
        let mut s = doc_attribute_of(cfg, &self.docstring);
        s.append("#[repr(transparent)]\npub struct ");
        s.append(token);
        s.append("(::pyo3::PyAny);\n::pyo3::pyobject_native_type_named!(");
        s.append(token);
        s.append(");\n::pyo3::pyobject_native_type_info!(");
        s.append(token);
        s.append(
            ", ::pyo3::pyobject_native_static_type_object!(::pyo3::ffi::PyBaseObject_Type), ::std::option::Option::Some(",
        );
        s.append(string_literal(self.name.to_py().as_str()).as_str());
        s.append("));\n::pyo3::pyobject_native_type_extract!(");
        s.append(token);
        s.append(");\n#[automatically_derived]\nimpl ");
        s.append(token);
        s.append(" {\n");
        s.append(text.functions.as_str());
        s.append("}\npub trait ");
        s.append(methods_name.as_rs());
        s.append(" {\n");
        s.append(text.trait_fns.as_str());
        s.append("}\n#[automatically_derived]\nimpl ");
        s.append(methods_name.as_rs());
        s.append(" for ::pyo3::Bound<'_, ");
        s.append(token);
        s.append("> {\n");
        s.append(text.impl_fns.as_str());
        s.append("}\n");
        s
    }

    /// Writes the code for the class, for a scope that knows the types
    /// `local_types` and can import the modules `importable`. A member whose
    /// code cannot be written is left out.
    pub fn generate(&self, cfg: &Config, local_types: &LocalTypes, importable: &Vec<String>) -> (s:
        String)
        requires
            self.reachable(),
        ensures
            s@ == class_code(self@, cfg@.generate_docs, local_types@, views(importable@)),
    {
        let token = match self.token() {
            Some(t) => t,
            None => {
                return String::new();
            },
        };
        let text = self.write_methods(cfg, local_types, importable);
        let text = self.write_properties(cfg, local_types, importable, text);
        self.assemble(cfg, token.as_str(), &text)
    }
}

} // verus!
