//! Modules: the tree that the generator works on.

use crate::ident::Ident;
use crate::model::{copy_list, copy_opt, same_list, same_opt, view_opt, Model};
use crate::path::{Path, PathView};
use crate::syntax::class::{Class, ClassView};
use crate::syntax::function::{Function, FunctionView};
use crate::syntax::import::{Import, ImportView};
use crate::syntax::property::{Property, PropertyView};
use crate::syntax::type_var::{TypeVar, TypeVarView};
use crate::text::{push_item, views};
use vstd::prelude::*;

verus! {

/// A module with all that it holds.
#[derive(Debug)]
pub struct Module {
    pub name: Path,
    /// The names that the module declares as its public surface, empty where
    /// that is what is public anyway.
    pub prelude: Vec<Ident>,
    pub imports: Vec<Import>,
    pub submodules: Vec<Module>,
    pub classes: Vec<Class>,
    pub type_vars: Vec<TypeVar>,
    pub functions: Vec<Function>,
    pub properties: Vec<Property>,
    pub docstring: Option<String>,
    pub is_package: bool,
}

/// [`Module`] with its texts and lists as sequences.
pub struct ModuleView {
    pub name: PathView,
    pub prelude: Seq<Seq<char>>,
    pub imports: Seq<ImportView>,
    pub submodules: Seq<ModuleView>,
    pub classes: Seq<ClassView>,
    pub type_vars: Seq<TypeVarView>,
    pub functions: Seq<FunctionView>,
    pub properties: Seq<PropertyView>,
    pub docstring: Option<Seq<char>>,
    pub is_package: bool,
}

impl Module {
    /// The model of a module, defined by recursion over the tree.
    pub open spec fn model(&self) -> ModuleView
        decreases self,
    {
        ModuleView {
            name: self.name@,
            prelude: views(self.prelude@),
            imports: views(self.imports@),
            submodules: Module::models(&self.submodules),
            classes: views(self.classes@),
            type_vars: views(self.type_vars@),
            functions: views(self.functions@),
            properties: views(self.properties@),
            docstring: view_opt(self.docstring),
            is_package: self.is_package,
        }
    }

    /// The models of the modules of a list.
    pub open spec fn models(list: &Vec<Module>) -> Seq<ModuleView>
        decreases list,
    {
        Seq::new(
            list.len() as nat,
            |i: int|
                if 0 <= i < list.len() {
                    list[i].model()
                } else {
                    arbitrary()
                },
        )
    }

    /// The models of a list are the views of its items.
    pub proof fn lemma_models(list: &Vec<Module>)
        ensures
            Module::models(list) == views(list@),
    {
        assert(Module::models(list) =~= views(list@));
    }

    /// The view of a module holds the views of its submodules.
    pub proof fn lemma_view(&self)
        ensures
            self@.submodules == views(self.submodules@),
    {
        Module::lemma_models(&self.submodules);
    }
}

impl View for Module {
    type V = ModuleView;

    open spec fn view(&self) -> ModuleView {
        self.model()
    }
}

/// A copy of a list of modules.
fn copy_modules(list: &Vec<Module>) -> (r: Vec<Module>)
    ensures
        views(r@) == views(list@),
    decreases list, 0nat,
{
    let mut out: Vec<Module> = Vec::new();
    let mut i: usize = 0;
    assert(views(out@) =~= views(list@).take(0));
    while i < list.len()
        invariant
            i <= list.len(),
            views(out@) == views(list@).take(i as int),
        decreases list.len() - i,
    {
        let m = list[i].duplicate();
        push_item(&mut out, m);
        assert(views(out@) =~= views(list@).take(i as int + 1));
        i += 1;
    }
    assert(views(list@).take(list.len() as int) =~= views(list@));
    out
}

/// Whether two lists of modules hold the same modules in the same order.
fn same_modules(a: &Vec<Module>, b: &Vec<Module>) -> (r: bool)
    ensures
        r == (views(a@) == views(b@)),
    decreases a, 0nat,
{
    if a.len() != b.len() {
        assert(views(a@).len() != views(b@).len());
        return false;
    }
    let mut i: usize = 0;
    while i < a.len()
        invariant
            i <= a.len(),
            a.len() == b.len(),
            forall|j: int| 0 <= j < i ==> a[j]@ == b[j]@,
        decreases a.len() - i,
    {
        if !a[i].is_same(&b[i]) {
            assert(views(a@)[i as int] != views(b@)[i as int]);
            return false;
        }
        i += 1;
    }
    assert(views(a@) =~= views(b@));
    true
}

impl Module {
    /// A copy of the module and of all below it.
    pub fn duplicate(&self) -> (r: Module)
        ensures
            r@ == self@,
        decreases self, 1nat,
    {
        let submodules = copy_modules(&self.submodules);
        proof {
            Module::lemma_models(&self.submodules);
            Module::lemma_models(&submodules);
        }
        Module {
            name: self.name.copy(),
            prelude: copy_list(&self.prelude),
            imports: copy_list(&self.imports),
            submodules,
            classes: copy_list(&self.classes),
            type_vars: copy_list(&self.type_vars),
            functions: copy_list(&self.functions),
            properties: copy_list(&self.properties),
            docstring: copy_opt(&self.docstring),
            is_package: self.is_package,
        }
    }

    /// Whether `self` and `other` are the same tree.
    pub fn is_same(&self, other: &Module) -> (r: bool)
        ensures
            r == (self@ == other@),
        decreases self, 1nat,
    {
        proof {
            Module::lemma_models(&self.submodules);
            Module::lemma_models(&other.submodules);
        }
        self.name.equals(&other.name) && same_list(&self.prelude, &other.prelude) && same_list(
            &self.imports,
            &other.imports,
        ) && same_modules(&self.submodules, &other.submodules) && same_list(
            &self.classes,
            &other.classes,
        ) && same_list(&self.type_vars, &other.type_vars) && same_list(
            &self.functions,
            &other.functions,
        ) && same_list(&self.properties, &other.properties) && same_opt(
            &self.docstring,
            &other.docstring,
        ) && self.is_package == other.is_package
    }
}

impl Model for Module {
    fn copy(&self) -> (r: Module) {
        self.duplicate()
    }

    fn equals(&self, other: &Module) -> (r: bool) {
        self.is_same(other)
    }
}

impl Clone for Module {
    fn clone(&self) -> (r: Module)
        ensures
            r@ == self@,
    {
        self.copy()
    }
}

impl PartialEq for Module {
    fn eq(&self, other: &Module) -> (r: bool) {
        self.equals(other)
    }
}

impl Eq for Module {

}

impl vstd::std_specs::cmp::PartialEqSpecImpl for Module {
    open spec fn obeys_eq_spec() -> bool {
        true
    }

    open spec fn eq_spec(&self, other: &Module) -> bool {
        self@ == other@
    }
}

/// The module called `name` that holds nothing: a package that stands for an
/// ancestor of a requested module.
pub open spec fn empty_module(name: PathView) -> ModuleView {
    ModuleView {
        name,
        prelude: Seq::empty(),
        imports: Seq::empty(),
        submodules: Seq::empty(),
        classes: Seq::empty(),
        type_vars: Seq::empty(),
        functions: Seq::empty(),
        properties: Seq::empty(),
        docstring: None,
        is_package: true,
    }
}

impl Module {
    /// The module called `name` that holds nothing.
    pub fn empty(name: Path) -> (m: Module)
        ensures
            m@ == empty_module(name@),
    {
        let m = Module {
            name,
            prelude: Vec::new(),
            imports: Vec::new(),
            submodules: Vec::new(),
            classes: Vec::new(),
            type_vars: Vec::new(),
            functions: Vec::new(),
            properties: Vec::new(),
            docstring: None,
            is_package: true,
        };
        proof {
            Module::lemma_models(&m.submodules);
        }
        assert(m@.prelude =~= Seq::empty());
        assert(m@.imports =~= Seq::empty());
        assert(m@.submodules =~= Seq::empty());
        assert(m@.classes =~= Seq::empty());
        assert(m@.type_vars =~= Seq::empty());
        assert(m@.functions =~= Seq::empty());
        assert(m@.properties =~= Seq::empty());
        m
    }
}

} // verus!
