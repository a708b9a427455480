//! Functions and methods: how they are read from a signature, and how the
//! code that calls them is written.

use crate::config::Config;
use crate::emit::{kept_docstring, keep_docstring};
use crate::ident::{rs_form, Ident};
use crate::model::{copy_list, copy_opt, same_list, same_opt, view_opt, Model};
use crate::path::{Path, PathView};
use crate::text::{push_item, views};
use crate::typing::annotation::{annotation_type, Annotation};
use crate::typing::{Type, TypeView};
use vstd::prelude::*;

verus! {

/// How an argument can be passed for a parameter.
#[derive(Debug, Clone, Copy, PartialEq, Eq, Structural)]
pub enum ParameterKind {
    PositionalOnly,
    PositionalOrKeyword,
    VarPositional,
    KeywordOnly,
    VarKeyword,
}

/// The kind with the number `code`, as the runtime numbers the kinds.
pub open spec fn kind_of_code(code: u8) -> Option<ParameterKind> {
    if code == 0 {
        Some(ParameterKind::PositionalOnly)
    } else if code == 1 {
        Some(ParameterKind::PositionalOrKeyword)
    } else if code == 2 {
        Some(ParameterKind::VarPositional)
    } else if code == 3 {
        Some(ParameterKind::KeywordOnly)
    } else if code == 4 {
        Some(ParameterKind::VarKeyword)
    } else {
        None
    }
}

impl ParameterKind {
    /// The kind that the runtime numbers `code`, if there is one.
    pub fn from_code(code: u8) -> (r: Option<ParameterKind>)
        ensures
            r == kind_of_code(code),
    {
        if code == 0 {
            Some(ParameterKind::PositionalOnly)
        } else if code == 1 {
            Some(ParameterKind::PositionalOrKeyword)
        } else if code == 2 {
            Some(ParameterKind::VarPositional)
        } else if code == 3 {
            Some(ParameterKind::KeywordOnly)
        } else if code == 4 {
            Some(ParameterKind::VarKeyword)
        } else {
            None
        }
    }

    /// Whether an argument for the parameter is passed by position.
    pub open spec fn positional(self) -> bool {
        self == ParameterKind::PositionalOnly || self == ParameterKind::PositionalOrKeyword
    }

    /// Whether an argument for the parameter is passed by position.
    pub fn is_positional(self) -> (r: bool)
        ensures
            r == self.positional(),
    {
        self == ParameterKind::PositionalOnly || self == ParameterKind::PositionalOrKeyword
    }
}

/// A parameter of a function.
#[derive(Debug)]
pub struct Parameter {
    pub name: Ident,
    pub kind: ParameterKind,
    pub annotation: Type,
    /// Whether the argument may be left out.
    pub has_default: bool,
}

/// [`Parameter`] with its name as a text.
pub struct ParameterView {
    pub name: Seq<char>,
    pub kind: ParameterKind,
    pub annotation: TypeView,
    pub has_default: bool,
}

impl View for Parameter {
    type V = ParameterView;

    open spec fn view(&self) -> ParameterView {
        ParameterView {
            name: self.name@,
            kind: self.kind,
            annotation: self.annotation@,
            has_default: self.has_default,
        }
    }
}

impl Model for Parameter {
    fn copy(&self) -> (r: Parameter) {
        Parameter {
            name: self.name.copy(),
            kind: self.kind,
            annotation: self.annotation.copy(),
            has_default: self.has_default,
        }
    }

    fn equals(&self, other: &Parameter) -> (r: bool) {
        self.name.equals(&other.name) && self.kind == other.kind && self.annotation.equals(
            &other.annotation,
        ) && self.has_default == other.has_default
    }
}

impl Clone for Parameter {
    fn clone(&self) -> (r: Parameter)
        ensures
            r@ == self@,
    {
        self.copy()
    }
}

impl PartialEq for Parameter {
    fn eq(&self, other: &Parameter) -> (r: bool) {
        self.equals(other)
    }
}

impl Eq for Parameter {

}

impl vstd::std_specs::cmp::PartialEqSpecImpl for Parameter {
    open spec fn obeys_eq_spec() -> bool {
        true
    }

    open spec fn eq_spec(&self, other: &Parameter) -> bool {
        self@ == other@
    }
}

/// What a method is called on.
#[derive(Debug, Clone, Copy, PartialEq, Eq, Structural)]
pub enum MethodType {
    InstanceMethod,
    ClassMethod,
    StaticMethod,
    Constructor,
    Callable,
    Unknown,
}

/// The role of a function.
#[derive(Debug)]
pub enum FunctionType {
    Function,
    Method { class_path: Path, typ: MethodType },
    Closure,
}

/// [`FunctionType`] with its path as a sequence.
pub enum FunctionTypeView {
    Function,
    Method { class_path: PathView, typ: MethodType },
    Closure,
}

impl View for FunctionType {
    type V = FunctionTypeView;

    open spec fn view(&self) -> FunctionTypeView {
        match self {
            FunctionType::Function => FunctionTypeView::Function,
            FunctionType::Method { class_path, typ } => FunctionTypeView::Method {
                class_path: class_path@,
                typ: *typ,
            },
            FunctionType::Closure => FunctionTypeView::Closure,
        }
    }
}

impl Model for FunctionType {
    fn copy(&self) -> (r: FunctionType) {
        match self {
            FunctionType::Function => FunctionType::Function,
            FunctionType::Method { class_path, typ } => FunctionType::Method {
                class_path: class_path.copy(),
                typ: *typ,
            },
            FunctionType::Closure => FunctionType::Closure,
        }
    }

    fn equals(&self, other: &FunctionType) -> (r: bool) {
        match (self, other) {
            (FunctionType::Function, FunctionType::Function) => true,
            (
                FunctionType::Method { class_path: a, typ: s },
                FunctionType::Method { class_path: b, typ: t },
            ) => a.equals(b) && *s == *t,
            (FunctionType::Closure, FunctionType::Closure) => true,
            _ => false,
        }
    }
}

impl Clone for FunctionType {
    fn clone(&self) -> (r: FunctionType)
        ensures
            r@ == self@,
    {
        self.copy()
    }
}

impl PartialEq for FunctionType {
    fn eq(&self, other: &FunctionType) -> (r: bool) {
        self.equals(other)
    }
}

impl Eq for FunctionType {

}

impl vstd::std_specs::cmp::PartialEqSpecImpl for FunctionType {
    open spec fn obeys_eq_spec() -> bool {
        true
    }

    open spec fn eq_spec(&self, other: &FunctionType) -> bool {
        self@ == other@
    }
}

/// A function, a method or a closure of a module or class.
#[derive(Debug)]
pub struct Function {
    pub name: Path,
    pub typ: FunctionType,
    pub parameters: Vec<Parameter>,
    pub return_annotation: Type,
    pub docstring: Option<String>,
}

/// [`Function`] with its texts and lists as sequences.
pub struct FunctionView {
    pub name: PathView,
    pub typ: FunctionTypeView,
    pub parameters: Seq<ParameterView>,
    pub return_annotation: TypeView,
    pub docstring: Option<Seq<char>>,
}

impl View for Function {
    type V = FunctionView;

    open spec fn view(&self) -> FunctionView {
        FunctionView {
            name: self.name@,
            typ: self.typ@,
            parameters: views(self.parameters@),
            return_annotation: self.return_annotation@,
            docstring: view_opt(self.docstring),
        }
    }
}

impl Model for Function {
    fn copy(&self) -> (r: Function) {
        Function {
            name: self.name.copy(),
            typ: self.typ.copy(),
            parameters: copy_list(&self.parameters),
            return_annotation: self.return_annotation.copy(),
            docstring: copy_opt(&self.docstring),
        }
    }

    fn equals(&self, other: &Function) -> (r: bool) {
        self.name.equals(&other.name) && self.typ.equals(&other.typ) && same_list(
            &self.parameters,
            &other.parameters,
        ) && self.return_annotation.equals(&other.return_annotation) && same_opt(
            &self.docstring,
            &other.docstring,
        )
    }
}

impl Clone for Function {
    fn clone(&self) -> (r: Function)
        ensures
            r@ == self@,
    {
        self.copy()
    }
}

impl PartialEq for Function {
    fn eq(&self, other: &Function) -> (r: bool) {
        self.equals(other)
    }
}

impl Eq for Function {

}

impl vstd::std_specs::cmp::PartialEqSpecImpl for Function {
    open spec fn obeys_eq_spec() -> bool {
        true
    }

    open spec fn eq_spec(&self, other: &Function) -> bool {
        self@ == other@
    }
}

/// What a signature tells about one parameter.
#[derive(Debug)]
pub struct ParameterFacts {
    pub name: String,
    pub kind: ParameterKind,
    /// The annotation, where the parameter has one.
    pub annotation: Option<Annotation>,
    pub has_default: bool,
}

/// What the runtime tells about the signature of a function.
#[derive(Debug)]
pub struct SignatureFacts {
    pub parameters: Vec<ParameterFacts>,
    /// The annotation of the result, where there is one.
    pub return_annotation: Option<Annotation>,
}

/// How the namespace of a class holds a function.
#[derive(Debug, Clone, Copy, PartialEq, Eq, Structural)]
pub enum Binding {
    /// Wrapped as a method of the class itself.
    ClassMethod,
    /// Wrapped as a function that takes no object.
    StaticMethod,
    /// As it is.
    Plain,
    /// Not at all, or the class could not be found.
    Missing,
}

/// What the runtime tells about a function.
#[derive(Debug)]
pub struct FunctionFacts {
    /// The docstring in its printed form.
    pub doc: String,
    /// The signature, where the runtime can tell it.
    pub signature: Option<SignatureFacts>,
    pub binding: Binding,
}

/// The parameter that takes all positional arguments.
pub open spec fn args_parameter() -> ParameterView {
    ParameterView {
        name: "args"@,
        kind: ParameterKind::VarPositional,
        annotation: TypeView::PyTuple(seq![TypeView::Unknown]),
        has_default: false,
    }
}

/// The parameter that takes all keyword arguments.
pub open spec fn kwargs_parameter() -> ParameterView {
    ParameterView {
        name: "kwargs"@,
        kind: ParameterKind::VarKeyword,
        annotation: TypeView::Optional(
            Box::new(
                TypeView::PyDict {
                    key_type: Box::new(TypeView::Unknown),
                    value_type: Box::new(TypeView::Unknown),
                },
            ),
        ),
        has_default: false,
    }
}

/// The parameters of a function of which nothing is known: it takes any
/// arguments.
pub open spec fn any_parameters() -> Seq<ParameterView> {
    seq![args_parameter(), kwargs_parameter()]
}

/// The type of a parameter: that of all positional or all keyword arguments
/// where it collects them, else that of its annotation.
pub open spec fn declared_type(p: &ParameterFacts) -> TypeView {
    match p.kind {
        ParameterKind::VarPositional => args_parameter().annotation,
        ParameterKind::VarKeyword => kwargs_parameter().annotation,
        _ => match &p.annotation {
            Some(a) => annotation_type(a),
            None => TypeView::Unknown,
        },
    }
}

/// The parameter that a signature declares.
pub open spec fn declared_parameter(p: &ParameterFacts) -> ParameterView {
    ParameterView {
        name: rs_form(p.name@),
        kind: p.kind,
        annotation: declared_type(p),
        has_default: p.has_default,
    }
}

/// The parameters that a signature declares, without those called `_`,
/// which stand for arguments that are not used.
pub open spec fn declared_parameters(ps: Seq<ParameterFacts>) -> Seq<ParameterView>
    decreases ps.len(),
{
    if ps.len() == 0 {
        Seq::empty()
    } else {
        let init = declared_parameters(ps.drop_last());
        let p = declared_parameter(&ps.last());
        if p.name == "r#_"@ {
            init
        } else {
            init.push(p)
        }
    }
}

/// Whether the first parameter is called `self`.
pub open spec fn starts_with_self(ps: Seq<ParameterView>) -> bool {
    ps.len() > 0 && ps[0].name == "r#self"@
}

/// Whether a parameter is called `self`.
pub open spec fn mentions_self(ps: Seq<ParameterView>) -> bool {
    exists|i: int| 0 <= i < ps.len() && (#[trigger] ps[i]).name == "r#self"@
}

/// Whether a method of this kind is called on an object, which is then its
/// first argument.
pub open spec fn takes_object(m: MethodType) -> bool {
    m == MethodType::InstanceMethod || m == MethodType::Constructor || m == MethodType::Callable
}

/// The kind of a method of unknown kind, told from how its class holds it.
pub open spec fn bound_kind_of_method(binding: Binding) -> MethodType {
    match binding {
        Binding::ClassMethod => MethodType::ClassMethod,
        Binding::StaticMethod | Binding::Missing => MethodType::StaticMethod,
        Binding::Plain => MethodType::InstanceMethod,
    }
}

/// The role of a function with the declared parameters `ps`, before the
/// parameter for the object is taken away.
///
/// A method of unknown kind is what its class holds it as. A method that is
/// not known to be called on an object is an instance method all the same
/// where its first parameter is called `self`. An instance method without
/// any parameter is a static method of the scope that its own path names.
pub open spec fn settled_type(
    typ: FunctionTypeView,
    binding: Binding,
    ps: Seq<ParameterView>,
    name: PathView,
) -> FunctionTypeView {
    match typ {
        FunctionTypeView::Method { class_path, typ: m } => {
            let told = if m == MethodType::Unknown {
                bound_kind_of_method(binding)
            } else {
                m
            };
            let by_name = if !takes_object(told) && starts_with_self(ps) {
                MethodType::InstanceMethod
            } else {
                told
            };
            if by_name == MethodType::InstanceMethod && ps.len() == 0 {
                FunctionTypeView::Method { class_path: name, typ: MethodType::StaticMethod }
            } else {
                FunctionTypeView::Method { class_path, typ: by_name }
            }
        },
        _ => typ,
    }
}

/// The parameters of a function of role `typ` that declares `ps`.
///
/// A function that is no method and yet starts with `self` keeps that
/// parameter under the name `__unknown_self__` where arguments are passed for
/// it by position, and else takes any arguments. A method that is called on
/// an object loses its first parameter. If a parameter called `self` is left
/// after that, the function takes any arguments.
pub open spec fn settled_parameters(typ: FunctionTypeView, ps: Seq<ParameterView>) -> Seq<
    ParameterView,
> {
    let adjusted = match typ {
        FunctionTypeView::Method { class_path, typ: m } => if takes_object(m) && ps.len() > 0 {
            ps.skip(1)
        } else {
            ps
        },
        _ => if starts_with_self(ps) {
            if ps[0].kind.positional() {
                ps.update(
                    0,
                    ParameterView {
                        name: "__unknown_self__"@,
                        kind: ps[0].kind,
                        annotation: TypeView::Unknown,
                        has_default: ps[0].has_default,
                    },
                )
            } else {
                any_parameters()
            }
        } else {
            ps
        },
    };
    if mentions_self(adjusted) {
        any_parameters()
    } else {
        adjusted
    }
}

/// The type of the result that a signature declares.
pub open spec fn declared_result(s: &SignatureFacts) -> TypeView {
    match &s.return_annotation {
        Some(a) => annotation_type(a),
        None => TypeView::Unknown,
    }
}

/// The function called `name` in the role `typ` whose signature is `s` and
/// whose docstring reads `doc`.
pub open spec fn function_with(
    s: &SignatureFacts,
    doc: Seq<char>,
    binding: Binding,
    name: PathView,
    typ: FunctionTypeView,
) -> FunctionView {
    let ps = declared_parameters(s.parameters@);
    let settled = settled_type(typ, binding, ps, name);
    FunctionView {
        name,
        typ: settled,
        parameters: settled_parameters(settled, ps),
        return_annotation: declared_result(s),
        docstring: kept_docstring(doc),
    }
}

/// The function called `name` in the role `typ` of which the runtime tells
/// `facts`. Where it tells no signature there is no function: what cannot be
/// inspected is passed over.
pub open spec fn parsed_function(
    facts: &FunctionFacts,
    name: PathView,
    typ: FunctionTypeView,
) -> Option<FunctionView> {
    match &facts.signature {
        Some(s) => Some(function_with(s, facts.doc@, facts.binding, name, typ)),
        None => None,
    }
}

impl Parameter {
    /// The parameters of a function that takes any arguments.
    pub fn any() -> (ps: Vec<Parameter>)
        ensures
            views(ps@) == any_parameters(),
    {
        reveal_with_fuel(Type::model, 3);
        let mut ps: Vec<Parameter> = Vec::new();
        let mut unknown: Vec<Type> = Vec::new();
        push_item(&mut unknown, Type::Unknown);
        assert(views(unknown@) =~= seq![TypeView::Unknown]);
        let args = Parameter {
            name: Ident::from_rs("args"),
            kind: ParameterKind::VarPositional,
            annotation: Type::tuple_of(unknown),
            has_default: false,
        };
        let kwargs = Parameter {
            name: Ident::from_rs("kwargs"),
            kind: ParameterKind::VarKeyword,
            annotation: Type::Optional(
                Box::new(
                    Type::PyDict {
                        key_type: Box::new(Type::Unknown),
                        value_type: Box::new(Type::Unknown),
                    },
                ),
            ),
            has_default: false,
        };
        push_item(&mut ps, args);
        push_item(&mut ps, kwargs);
        assert(views(ps@) =~= any_parameters());
        ps
    }

    /// The parameter that a signature declares.
    pub fn declared(p: &ParameterFacts) -> (r: Parameter)
        ensures
            r@ == declared_parameter(p),
    {
        reveal_with_fuel(Type::model, 3);
        let annotation = match p.kind {
            ParameterKind::VarPositional => {
                let mut unknown: Vec<Type> = Vec::new();
                push_item(&mut unknown, Type::Unknown);
                assert(views(unknown@) =~= seq![TypeView::Unknown]);
                Type::tuple_of(unknown)
            },
            ParameterKind::VarKeyword => Type::Optional(
                Box::new(
                    Type::PyDict {
                        key_type: Box::new(Type::Unknown),
                        value_type: Box::new(Type::Unknown),
                    },
                ),
            ),
            _ => match &p.annotation {
                Some(a) => Type::from_annotation(a),
                None => Type::Unknown,
            },
        };
        Parameter {
            name: Ident::from_py(p.name.as_str()),
            kind: p.kind,
            annotation,
            has_default: p.has_default,
        }
    }
}

/// Whether the first parameter is called `self`.
fn first_is_self(ps: &Vec<Parameter>) -> (r: bool)
    ensures
        r == starts_with_self(views(ps@)),
{
    if ps.len() > 0 {
        assert(views(ps@)[0] == ps@[0]@);
        ps[0].name.is_rs("r#self")
    } else {
        false
    }
}

/// Whether a parameter is called `self`.
fn any_is_self(ps: &Vec<Parameter>) -> (r: bool)
    ensures
        r == mentions_self(views(ps@)),
{
    let mut i: usize = 0;
    while i < ps.len()
        invariant
            i <= ps.len(),
            forall|j: int| 0 <= j < i ==> (#[trigger] views(ps@)[j]).name != "r#self"@,
        decreases ps.len() - i,
    {
        assert(views(ps@)[i as int] == ps@[i as int]@);
        if ps[i].name.is_rs("r#self") {
            return true;
        }
        i += 1;
    }
    false
}

/// Whether a method of this kind is called on an object.
pub fn is_called_on_object(m: MethodType) -> (r: bool)
    ensures
        r == takes_object(m),
{
    m == MethodType::InstanceMethod || m == MethodType::Constructor || m == MethodType::Callable
}

impl Function {
    /// The parameters that a signature declares.
    fn declare(facts: &Vec<ParameterFacts>) -> (ps: Vec<Parameter>)
        ensures
            views(ps@) == declared_parameters(facts@),
    {
        let mut ps: Vec<Parameter> = Vec::new();
        let mut i: usize = 0;
        assert(facts@.take(0) =~= Seq::<ParameterFacts>::empty());
        assert(views(ps@) =~= Seq::<ParameterView>::empty());
        while i < facts.len()
            invariant
                i <= facts.len(),
                views(ps@) == declared_parameters(facts@.take(i as int)),
            decreases facts.len() - i,
        {
            assert(facts@.take(i as int + 1).drop_last() =~= facts@.take(i as int));
            let p = Parameter::declared(&facts[i]);
            if !p.name.is_rs("r#_") {
                push_item(&mut ps, p);
            }
            i += 1;
        }
        assert(facts@.take(facts.len() as int) =~= facts@);
        ps
    }

    /// Settles the role of a function that declares `ps`.
    fn settle_type(typ: FunctionType, binding: Binding, ps: &Vec<Parameter>, name: &Path) -> (r:
        FunctionType)
        ensures
            r@ == settled_type(typ@, binding, views(ps@), name@),
    {
        match typ {
            FunctionType::Method { class_path, typ: m } => {
                let told = if m == MethodType::Unknown {
                    match binding {
                        Binding::ClassMethod => MethodType::ClassMethod,
                        Binding::StaticMethod | Binding::Missing => MethodType::StaticMethod,
                        Binding::Plain => MethodType::InstanceMethod,
                    }
                } else {
                    m
                };
                let by_name = if !is_called_on_object(told) && first_is_self(ps) {
                    MethodType::InstanceMethod
                } else {
                    told
                };
                if by_name == MethodType::InstanceMethod && ps.len() == 0 {
                    FunctionType::Method { class_path: name.clone(), typ: MethodType::StaticMethod }
                } else {
                    FunctionType::Method { class_path, typ: by_name }
                }
            },
            other => other,
        }
    }

    /// Settles the parameters of a function of role `typ` that declares
    /// `ps`.
    fn settle_parameters(typ: &FunctionType, ps: Vec<Parameter>) -> (r: Vec<Parameter>)
        ensures
            views(r@) == settled_parameters(typ@, views(ps@)),
    {
        let mut ps = ps;
        let ghost declared = views(ps@);
        match typ {
            FunctionType::Method { class_path, typ: m } => {
                if is_called_on_object(*m) && ps.len() > 0 {
                    let ghost before = ps@;
                    ps.remove(0);
                    assert(ps@ =~= before.skip(1));
                    assert(views(ps@) =~= declared.skip(1));
                }
            },
            _ => {
                if first_is_self(&ps) {
                    assert(declared[0] == ps@[0]@);
                    if ps[0].kind.is_positional() {
                        let renamed = Parameter {
                            name: Ident::from_rs("__unknown_self__"),
                            kind: ps[0].kind,
                            annotation: Type::Unknown,
                            has_default: ps[0].has_default,
                        };
                        let ghost before = ps@;
                        ps.set(0, renamed);
                        assert(views(ps@) =~= declared.update(0, renamed@));
                    } else {
                        ps = Parameter::any();
                    }
                }
            },
        }
        if any_is_self(&ps) {
            Parameter::any()
        } else {
            ps
        }
    }

    /// Reads the function called `name` in the role `typ` from what the
    /// runtime tells about it. There is none where the runtime tells no
    /// signature.
    pub fn parse(_cfg: &Config, facts: &FunctionFacts, name: Path, typ: FunctionType) -> (f:
        Option<Function>)
        ensures
            view_opt(f) == parsed_function(facts, name@, typ@),
    {
        match &facts.signature {
            Some(s) => {
                let docstring = keep_docstring(facts.doc.as_str());
                let ps = Function::declare(&s.parameters);
                let settled = Function::settle_type(typ, facts.binding, &ps, &name);
                let parameters = Function::settle_parameters(&settled, ps);
                let return_annotation = match &s.return_annotation {
                    Some(a) => Type::from_annotation(a),
                    None => Type::Unknown,
                };
                Some(Function { name, typ: settled, parameters, return_annotation, docstring })
            },
            None => None,
        }
    }
}

} // verus!
