//! Reading a module from what the runtime tells about it.

use crate::config::{attr_allowed, private_name, Config, ConfigView};
use crate::emit::{keep_docstring, kept_docstring};
use crate::ident::{py_form, rs_form, Ident};
use crate::model::{holds, unique, Model};
use crate::path::{path_from_py, Path, PathView};
use crate::syntax::attribute_variant::{classify, AttributeTraits, AttributeVariant};
use crate::syntax::class::{member_path, parsed_class, Class, ClassFacts, ClassView};
use crate::syntax::function::{
    parsed_function, Function, FunctionFacts, FunctionType, FunctionTypeView, FunctionView,
};
use crate::syntax::import::{import_type_of, Import, ImportView};
use crate::syntax::module::{Module, ModuleView};
use crate::syntax::property::{
    parsed_property, Property, PropertyFacts, PropertyOwner, PropertyView,
};
use crate::syntax::type_var::{TypeVar, TypeVarView};
use crate::text::{push_item, views};
use vstd::prelude::*;

verus! {

/// What the runtime tells about one attribute of a module.
#[derive(Debug)]
pub struct AttributeFacts {
    pub name: String,
    /// The module that defines the attribute, empty where none is known.
    pub module: String,
    /// The name that the attribute has of its own, where it has one.
    pub own_name: Option<String>,
    pub traits: AttributeTraits,
    /// What is known of the attribute as a function.
    pub function: Option<FunctionFacts>,
    /// What is known of the attribute as a property.
    pub property: Option<PropertyFacts>,
    /// What is known of the attribute as a class.
    pub class: Option<ClassFacts>,
}

/// What the runtime tells about a submodule.
#[derive(Debug)]
pub struct SubmoduleFacts {
    /// The name under which the module that holds it knows it.
    pub name: String,
    pub module: ModuleFacts,
}

/// What the runtime tells about a module.
#[derive(Debug)]
pub struct ModuleFacts {
    /// The full name of the module.
    pub name: String,
    /// The docstring in its printed form.
    pub doc: String,
    /// Whether the module is a package, which holds submodules.
    pub is_package: bool,
    /// The names that the module declares as its public surface, where it
    /// declares any.
    pub index: Option<Vec<String>>,
    /// The attributes in the order in which the runtime lists them.
    pub attributes: Vec<AttributeFacts>,
    /// The names of the submodules that the package lists.
    pub packaged: Vec<String>,
    /// The submodules that could be loaded.
    pub submodules: Vec<SubmoduleFacts>,
}

/// What a module was found to hold so far.
pub struct Gathered {
    pub imports: Seq<ImportView>,
    /// The imports that bear the name of a submodule.
    pub conflicts: Seq<ImportView>,
    pub submodules: Seq<ModuleView>,
    pub classes: Seq<ClassView>,
    pub type_vars: Seq<TypeVarView>,
    pub functions: Seq<FunctionView>,
    pub properties: Seq<PropertyView>,
}

/// Nothing gathered yet.
pub open spec fn nothing_gathered() -> Gathered {
    Gathered {
        imports: Seq::empty(),
        conflicts: Seq::empty(),
        submodules: Seq::empty(),
        classes: Seq::empty(),
        type_vars: Seq::empty(),
        functions: Seq::empty(),
        properties: Seq::empty(),
    }
}

/// What an attribute of a module turns out to be.
pub enum Item {
    Import(ImportView),
    Conflict(ImportView),
    Class(ClassView),
    TypeVar(TypeVarView),
    Function(FunctionView),
    Property(PropertyView),
    Nothing,
}

/// `g` with `item` added to the list of its kind.
pub open spec fn with_item(g: Gathered, item: Item) -> Gathered {
    match item {
        Item::Import(i) => Gathered { imports: g.imports.push(i), ..g },
        Item::Conflict(i) => Gathered { conflicts: g.conflicts.push(i), ..g },
        Item::Class(c) => Gathered { classes: g.classes.push(c), ..g },
        Item::TypeVar(t) => Gathered { type_vars: g.type_vars.push(t), ..g },
        Item::Function(f) => Gathered { functions: g.functions.push(f), ..g },
        Item::Property(p) => Gathered { properties: g.properties.push(p), ..g },
        Item::Nothing => g,
    }
}

/// The names of the attributes.
pub open spec fn attribute_names(attrs: Seq<AttributeFacts>) -> Seq<Seq<char>> {
    Seq::new(attrs.len(), |i: int| rs_form(attrs[i].name@))
}

/// Whether the attribute at position `k` is looked at: it is the first of
/// its name and passes the filter on names.
pub open spec fn attribute_considered(cfg: ConfigView, attrs: Seq<AttributeFacts>, k: int) -> bool {
    &&& forall|j: int|
        0 <= j < k ==> #[trigger] attribute_names(attrs)[j] != attribute_names(attrs)[k]
    &&& attr_allowed(cfg, rs_form(attrs[k].name@), path_from_py(attrs[k].module@).segments)
}

/// The kind of the attribute `a` of the module `owner`.
pub open spec fn attribute_variant(a: &AttributeFacts, owner: PathView) -> AttributeVariant {
    classify(a.traits@, path_from_py(a.module@), owner, true)
}

/// Those of the names `names`, among the first `n`, that pass the filter on
/// names as attributes of the module `owner`, each once.
pub open spec fn allowed_names(cfg: ConfigView, names: Seq<String>, owner: PathView, n: int) -> Seq<
    Seq<char>,
>
    decreases n,
{
    if n <= 0 {
        Seq::empty()
    } else {
        let before = allowed_names(cfg, names, owner, n - 1);
        let name = rs_form(names[n - 1]@);
        if attr_allowed(cfg, name, owner.segments) && !before.contains(name) {
            before.push(name)
        } else {
            before
        }
    }
}

/// The submodules to go into, as far as the first `k` attributes tell: those
/// that the package lists, and the attributes that are modules.
pub open spec fn submodules_to_process(cfg: ConfigView, facts: &ModuleFacts, k: int) -> Seq<
    Seq<char>,
>
    decreases k,
{
    let owner = path_from_py(facts.name@);
    if k <= 0 {
        if facts.is_package {
            allowed_names(cfg, facts.packaged@, owner, facts.packaged.len() as int)
        } else {
            Seq::empty()
        }
    } else {
        let before = submodules_to_process(cfg, facts, k - 1);
        let a = facts.attributes[k - 1];
        if attribute_considered(cfg, facts.attributes@, k - 1) && attribute_variant(&a, owner)
            == AttributeVariant::Module && !before.contains(rs_form(a.name@)) {
            before.push(rs_form(a.name@))
        } else {
            before
        }
    }
}

/// Where an imported attribute was defined: in its module, under the name
/// that it has of its own or, where it has none, under which it was found.
pub open spec fn import_origin(a: &AttributeFacts) -> PathView {
    PathView {
        leading_colon: false,
        segments: path_from_py(a.module@).segments + path_from_py(
            match a.own_name {
                Some(n) => n@,
                None => py_form(rs_form(a.name@)),
            },
        ).segments,
    }
}

/// Whether each segment of `origin` passes the filter on names as an
/// attribute of what the segments before it name.
pub open spec fn origin_allowed(cfg: ConfigView, origin: PathView) -> bool {
    forall|i: int|
        0 <= i < origin.segments.len() ==> attr_allowed(
            cfg,
            #[trigger] origin.segments[i],
            origin.segments.take(i),
        )
}

/// What an attribute that is a function in the role `typ` turns out to be:
/// nothing where the runtime tells no signature of it.
pub open spec fn function_item(
    facts: &Option<FunctionFacts>,
    full: PathView,
    typ: FunctionTypeView,
) -> Item {
    match facts {
        Some(f) => match parsed_function(f, full, typ) {
            Some(function) => Item::Function(function),
            None => Item::Nothing,
        },
        None => Item::Nothing,
    }
}

/// What the attribute at position `k` of the module turns out to be.
///
/// An import is kept where it brings a name from elsewhere and every
/// segment of its origin would itself be looked at; it is set aside where it
/// bears the name of a submodule. Methods are not bound in a module, and
/// modules are gone into later.
pub open spec fn attribute_item(cfg: ConfigView, facts: &ModuleFacts, k: int) -> Item {
    let owner = path_from_py(facts.name@);
    let a = facts.attributes[k];
    let full = member_path(owner, a.name@);
    if !attribute_considered(cfg, facts.attributes@, k) {
        Item::Nothing
    } else {
        match attribute_variant(&a, owner) {
            AttributeVariant::Import => {
                let origin = import_origin(&a);
                if origin == full || !origin_allowed(cfg, origin) {
                    Item::Nothing
                } else {
                    let import = ImportView {
                        origin,
                        target: full,
                        import_type: import_type_of(origin, full),
                    };
                    if submodules_to_process(cfg, facts, k).contains(rs_form(a.name@)) {
                        Item::Conflict(import)
                    } else {
                        Item::Import(import)
                    }
                }
            },
            AttributeVariant::Class => match &a.class {
                Some(c) => Item::Class(parsed_class(cfg, c, full)),
                None => Item::Nothing,
            },
            AttributeVariant::TypeVar => Item::TypeVar(TypeVarView { name: full }),
            AttributeVariant::Function => function_item(&a.function, full, FunctionTypeView::Function),
            AttributeVariant::Closure => function_item(&a.function, full, FunctionTypeView::Closure),
            AttributeVariant::Property => match &a.property {
                Some(p) => Item::Property(parsed_property(p, full, PropertyOwner::Module)),
                None => Item::Nothing,
            },
            _ => Item::Nothing,
        }
    }
}

/// What the first `k` attributes of the module are.
pub open spec fn gathered(cfg: ConfigView, facts: &ModuleFacts, k: int) -> Gathered
    decreases k,
{
    if k <= 0 {
        nothing_gathered()
    } else {
        with_item(gathered(cfg, facts, k - 1), attribute_item(cfg, facts, k - 1))
    }
}

/// The position of the first import of `imports` whose target is `path`, or
/// -1.
pub open spec fn import_at(imports: Seq<ImportView>, path: PathView, n: int) -> int
    decreases n,
{
    if n <= 0 {
        -1
    } else {
        let before = import_at(imports, path, n - 1);
        if before >= 0 {
            before
        } else if imports[n - 1].target == path {
            n - 1
        } else {
            -1
        }
    }
}

/// The position of the first of the paths `paths` that is `path`, or -1.
pub open spec fn path_at(paths: Seq<PathView>, path: PathView, n: int) -> int
    decreases n,
{
    if n <= 0 {
        -1
    } else {
        let before = path_at(paths, path, n - 1);
        if before >= 0 {
            before
        } else if paths[n - 1] == path {
            n - 1
        } else {
            -1
        }
    }
}

/// The position of the first submodule that the module knows as `name`, or
/// -1.
pub open spec fn submodule_at(subs: Seq<SubmoduleFacts>, name: Seq<char>, n: int) -> int
    decreases n,
{
    if n <= 0 {
        -1
    } else {
        let before = submodule_at(subs, name, n - 1);
        if before >= 0 {
            before
        } else if rs_form(subs[n - 1].name@) == name {
            n - 1
        } else {
            -1
        }
    }
}

/// `g` with what the submodule `sub` defines at the origin of the import
/// `c`, under the name of the import's target: the name of a submodule that
/// an import hides stands for what is imported.
pub open spec fn with_pulled(g: Gathered, sub: ModuleView, c: ImportView) -> Gathered {
    let i = import_at(sub.imports, c.origin, sub.imports.len() as int);
    let cl = path_at(
        Seq::new(sub.classes.len(), |k: int| sub.classes[k].name),
        c.origin,
        sub.classes.len() as int,
    );
    let t = path_at(
        Seq::new(sub.type_vars.len(), |k: int| sub.type_vars[k].name),
        c.origin,
        sub.type_vars.len() as int,
    );
    let f = path_at(
        Seq::new(sub.functions.len(), |k: int| sub.functions[k].name),
        c.origin,
        sub.functions.len() as int,
    );
    let p = path_at(
        Seq::new(sub.properties.len(), |k: int| sub.properties[k].name),
        c.origin,
        sub.properties.len() as int,
    );
    Gathered {
        imports: if i >= 0 {
            g.imports.push(ImportView { target: c.target, ..sub.imports[i] })
        } else {
            g.imports
        },
        classes: if cl >= 0 {
            g.classes.push(ClassView { name: c.target, ..sub.classes[cl] })
        } else {
            g.classes
        },
        type_vars: if t >= 0 {
            g.type_vars.push(TypeVarView { name: c.target })
        } else {
            g.type_vars
        },
        functions: if f >= 0 {
            g.functions.push(FunctionView { name: c.target, ..sub.functions[f] })
        } else {
            g.functions
        },
        properties: if p >= 0 {
            g.properties.push(PropertyView { name: c.target, ..sub.properties[p] })
        } else {
            g.properties
        },
        ..g
    }
}

/// `g` after the submodule that the module knows as `name` was gone into.
/// Where an import bears its name, what the import brings is taken from the
/// submodule; otherwise the submodule is added. A submodule that could not
/// be loaded leaves no trace.
pub open spec fn with_submodule(
    cfg: ConfigView,
    facts: &ModuleFacts,
    g: Gathered,
    name: Seq<char>,
) -> Gathered
    decreases facts, 0nat,
{
    let owner = path_from_py(facts.name@);
    let full = PathView { leading_colon: owner.leading_colon, segments: owner.segments.push(name) };
    let c = import_at(g.conflicts, full, g.conflicts.len() as int);
    let j = submodule_at(facts.submodules@, name, facts.submodules.len() as int);
    if 0 <= j < facts.submodules.len() {
        let sub = parsed_module(cfg, &facts.submodules[j].module);
        if c >= 0 {
            with_pulled(g, sub, g.conflicts[c])
        } else {
            Gathered { submodules: g.submodules.push(sub), ..g }
        }
    } else {
        g
    }
}

/// `g` after the first `n` of the submodules `names` were gone into.
pub open spec fn with_submodules(
    cfg: ConfigView,
    facts: &ModuleFacts,
    g: Gathered,
    names: Seq<Seq<char>>,
    n: int,
) -> Gathered
    decreases facts, 1nat, n,
{
    if n <= 0 {
        g
    } else {
        with_submodule(cfg, facts, with_submodules(cfg, facts, g, names, n - 1), names[n - 1])
    }
}

/// The names that the module declares as its public surface, each once.
pub open spec fn index_names(facts: &ModuleFacts) -> Seq<Seq<char>> {
    match &facts.index {
        Some(v) => unique(Seq::new(v.len() as nat, |i: int| rs_form(v[i]@))),
        None => Seq::empty(),
    }
}

/// Whether the attribute called `name` is public by the rule that holds
/// where a module declares nothing: its name starts with no underscore.
pub open spec fn public_by_default(name: Seq<char>) -> bool {
    !private_name(py_form(name))
}

/// Whether the declared public surface of the module is what is public
/// anyway: the same names are declared and public by default.
pub open spec fn index_is_default(facts: &ModuleFacts) -> bool {
    let declared = index_names(facts);
    let names = attribute_names(facts.attributes@);
    &&& forall|i: int| 0 <= i < declared.len() ==> names.contains(#[trigger] declared[i])
        && public_by_default(declared[i])
    &&& forall|i: int|
        0 <= i < names.len() && public_by_default(#[trigger] names[i]) ==> declared.contains(
            names[i],
        )
}

/// The position of the first attribute called `name`, or -1.
pub open spec fn attribute_at(attrs: Seq<AttributeFacts>, name: Seq<char>, n: int) -> int
    decreases n,
{
    if n <= 0 {
        -1
    } else {
        let before = attribute_at(attrs, name, n - 1);
        if before >= 0 {
            before
        } else if rs_form(attrs[n - 1].name@) == name {
            n - 1
        } else {
            -1
        }
    }
}

/// Whether the declared name `name` is kept in the prelude: it passes the
/// filter on names as an attribute of the module, so it is neither private,
/// where private names are left out, nor on the list of names to leave out.
pub open spec fn export_kept(cfg: ConfigView, facts: &ModuleFacts, name: Seq<char>) -> bool {
    attr_allowed(cfg, name, path_from_py(facts.name@).segments)
}

/// Those of the first `n` declared names that are kept in the prelude.
pub open spec fn kept_exports(cfg: ConfigView, facts: &ModuleFacts, n: int) -> Seq<Seq<char>>
    decreases n,
{
    if n <= 0 {
        Seq::empty()
    } else if export_kept(cfg, facts, index_names(facts)[n - 1]) {
        kept_exports(cfg, facts, n - 1).push(index_names(facts)[n - 1])
    } else {
        kept_exports(cfg, facts, n - 1)
    }
}

/// The prelude of the module: nothing where preludes are not generated or
/// the module declares what is public anyway, else the declared names that
/// are kept.
pub open spec fn parsed_prelude(cfg: ConfigView, facts: &ModuleFacts) -> Seq<Seq<char>> {
    if !cfg.generate_preludes || index_is_default(facts) {
        Seq::empty()
    } else {
        kept_exports(cfg, facts, index_names(facts).len() as int)
    }
}

/// The module of which the runtime tells `facts`, with all below it.
///
/// Its attributes are looked at in the order in which the runtime lists
/// them, each name once and only where it passes the filter on names. Then,
/// where submodules are traversed, the submodules are gone into in the order
/// in which they were found.
pub open spec fn parsed_module(cfg: ConfigView, facts: &ModuleFacts) -> ModuleView
    decreases facts, 2nat,
{
    let n = facts.attributes.len() as int;
    let from_attributes = gathered(cfg, facts, n);
    let names = submodules_to_process(cfg, facts, n);
    let g = if cfg.traverse_submodules {
        with_submodules(cfg, facts, from_attributes, names, names.len() as int)
    } else {
        from_attributes
    };
    ModuleView {
        name: path_from_py(facts.name@),
        prelude: parsed_prelude(cfg, facts),
        imports: g.imports,
        submodules: g.submodules,
        classes: g.classes,
        type_vars: g.type_vars,
        functions: g.functions,
        properties: g.properties,
        docstring: kept_docstring(facts.doc@),
        is_package: facts.is_package,
    }
}

/// What a module was found to hold so far.
struct Found {
    imports: Vec<Import>,
    conflicts: Vec<Import>,
    submodules: Vec<Module>,
    classes: Vec<Class>,
    type_vars: Vec<TypeVar>,
    functions: Vec<Function>,
    properties: Vec<Property>,
}

impl Found {
    /// What was found, as sequences.
    spec fn gathered(&self) -> Gathered {
        Gathered {
            imports: views(self.imports@),
            conflicts: views(self.conflicts@),
            submodules: views(self.submodules@),
            classes: views(self.classes@),
            type_vars: views(self.type_vars@),
            functions: views(self.functions@),
            properties: views(self.properties@),
        }
    }

    /// Nothing found yet.
    fn new() -> (f: Found)
        ensures
            f.gathered() == nothing_gathered(),
    {
        let f = Found {
            imports: Vec::new(),
            conflicts: Vec::new(),
            submodules: Vec::new(),
            classes: Vec::new(),
            type_vars: Vec::new(),
            functions: Vec::new(),
            properties: Vec::new(),
        };
        assert(f.gathered().imports =~= Seq::empty());
        assert(f.gathered().conflicts =~= Seq::empty());
        assert(f.gathered().submodules =~= Seq::empty());
        assert(f.gathered().classes =~= Seq::empty());
        assert(f.gathered().type_vars =~= Seq::empty());
        assert(f.gathered().functions =~= Seq::empty());
        assert(f.gathered().properties =~= Seq::empty());
        f
    }
}

/// Whether the list of names holds `name`.
fn holds_ident(names: &Vec<Ident>, name: &Ident) -> (r: bool)
    ensures
        r == views(names@).contains(name@),
{
    holds(names, name)
}

/// Whether the attribute at position `k` is looked at.
fn is_attribute_considered(cfg: &Config, attrs: &Vec<AttributeFacts>, k: usize) -> (r: bool)
    requires
        k < attrs.len(),
    ensures
        r == attribute_considered(cfg@, attrs@, k as int),
{
    let own = Ident::from_py(attrs[k].name.as_str());
    let ghost names = attribute_names(attrs@);
    let mut j: usize = 0;
    while j < k
        invariant
            j <= k < attrs.len(),
            names == attribute_names(attrs@),
            own@ == names[k as int],
            forall|i: int| 0 <= i < j ==> #[trigger] names[i] != names[k as int],
        decreases k - j,
    {
        if Ident::from_py(attrs[j].name.as_str()).equals(&own) {
            assert(names[j as int] == names[k as int]);
            return false;
        }
        j += 1;
    }
    cfg.is_attr_allowed(&own, &Path::from_py(attrs[k].module.as_str()))
}

/// Whether each segment of `origin` passes the filter on names.
fn is_origin_allowed(cfg: &Config, origin: &Path) -> (r: bool)
    ensures
        r == origin_allowed(cfg@, origin@),
{
    let mut i: usize = 0;
    while i < origin.len()
        invariant
            i <= origin@.segments.len(),
            forall|j: int|
                0 <= j < i ==> attr_allowed(
                    cfg@,
                    #[trigger] origin@.segments[j],
                    origin@.segments.take(j),
                ),
        decreases origin@.segments.len() - i,
    {
        if !cfg.is_attr_allowed(origin.segment(i), &origin.prefix(i)) {
            return false;
        }
        i += 1;
    }
    true
}

/// Where an imported attribute was defined.
fn origin_of(a: &AttributeFacts) -> (origin: Path)
    ensures
        origin@ == import_origin(a),
{
    let own = match &a.own_name {
        Some(n) => Path::from_py(n.as_str()),
        None => Path::from_py(Ident::from_py(a.name.as_str()).as_py()),
    };
    Path::from_py(a.module.as_str()).join(&own)
}

/// The names of the submodules that the package lists and that pass the
/// filter on names.
fn packaged_names(cfg: &Config, facts: &ModuleFacts, owner: &Path) -> (out: Vec<Ident>)
    requires
        owner@ == path_from_py(facts.name@),
    ensures
        views(out@) == submodules_to_process(cfg@, facts, 0),
{
    let mut out: Vec<Ident> = Vec::new();
    assert(views(out@) =~= Seq::<Seq<char>>::empty());
    if !facts.is_package {
        return out;
    }
    let mut n: usize = 0;
    while n < facts.packaged.len()
        invariant
            n <= facts.packaged.len(),
            owner@ == path_from_py(facts.name@),
            views(out@) == allowed_names(cfg@, facts.packaged@, owner@, n as int),
        decreases facts.packaged.len() - n,
    {
        let name = Ident::from_py(facts.packaged[n].as_str());
        if cfg.is_attr_allowed(&name, owner) && !holds_ident(&out, &name) {
            push_item(&mut out, name);
        }
        n += 1;
    }
    out
}

/// The position of the first import of `imports` whose target is `path`.
fn find_import(imports: &Vec<Import>, path: &Path) -> (r: Option<usize>)
    ensures
        match r {
            Some(i) => i < imports.len() && import_at(views(imports@), path@, imports.len() as int)
                == i,
            None => import_at(views(imports@), path@, imports.len() as int) == -1,
        },
{
    let mut n: usize = 0;
    while n < imports.len()
        invariant
            n <= imports.len(),
            import_at(views(imports@), path@, n as int) == -1,
        decreases imports.len() - n,
    {
        assert(views(imports@)[n as int] == imports@[n as int]@);
        if imports[n].target.equals(path) {
            proof {
                lemma_import_at_stays(views(imports@), path@, n as int + 1, imports.len() as int);
            }
            return Some(n);
        }
        n += 1;
    }
    None
}

/// An import that is found among the first `n` is found at the same
/// position among more.
proof fn lemma_import_at_stays(imports: Seq<ImportView>, path: PathView, n: int, k: int)
    requires
        0 <= n <= k,
        import_at(imports, path, n) >= 0,
    ensures
        import_at(imports, path, k) == import_at(imports, path, n),
    decreases k - n,
{
    if n < k {
        lemma_import_at_stays(imports, path, n, k - 1);
    }
}

/// A path that is found among the first `n` is found at the same position
/// among more.
proof fn lemma_path_at_stays(paths: Seq<PathView>, path: PathView, n: int, k: int)
    requires
        0 <= n <= k,
        path_at(paths, path, n) >= 0,
    ensures
        path_at(paths, path, k) == path_at(paths, path, n),
    decreases k - n,
{
    if n < k {
        lemma_path_at_stays(paths, path, n, k - 1);
    }
}

/// A submodule that is found among the first `n` is found at the same
/// position among more.
proof fn lemma_submodule_at_stays(subs: Seq<SubmoduleFacts>, name: Seq<char>, n: int, k: int)
    requires
        0 <= n <= k,
        submodule_at(subs, name, n) >= 0,
    ensures
        submodule_at(subs, name, k) == submodule_at(subs, name, n),
    decreases k - n,
{
    if n < k {
        lemma_submodule_at_stays(subs, name, n, k - 1);
    }
}

/// An attribute that is found among the first `n` is found at the same
/// position among more.
proof fn lemma_attribute_at_stays(attrs: Seq<AttributeFacts>, name: Seq<char>, n: int, k: int)
    requires
        0 <= n <= k,
        attribute_at(attrs, name, n) >= 0,
    ensures
        attribute_at(attrs, name, k) == attribute_at(attrs, name, n),
    decreases k - n,
{
    if n < k {
        lemma_attribute_at_stays(attrs, name, n, k - 1);
    }
}

/// The position of the first submodule that the module knows as `name`.
fn find_submodule(subs: &Vec<SubmoduleFacts>, name: &Ident) -> (r: Option<usize>)
    ensures
        match r {
            Some(i) => i < subs.len() && submodule_at(subs@, name@, subs.len() as int) == i,
            None => submodule_at(subs@, name@, subs.len() as int) == -1,
        },
{
    let mut n: usize = 0;
    while n < subs.len()
        invariant
            n <= subs.len(),
            submodule_at(subs@, name@, n as int) == -1,
        decreases subs.len() - n,
    {
        if Ident::from_py(subs[n].name.as_str()).equals(name) {
            proof {
                lemma_submodule_at_stays(subs@, name@, n as int + 1, subs.len() as int);
            }
            return Some(n);
        }
        n += 1;
    }
    None
}

/// The position of the first attribute called `name`.
fn find_attribute(attrs: &Vec<AttributeFacts>, name: &Ident) -> (r: Option<usize>)
    ensures
        match r {
            Some(i) => i < attrs.len() && attribute_at(attrs@, name@, attrs.len() as int) == i,
            None => attribute_at(attrs@, name@, attrs.len() as int) == -1,
        },
{
    let mut n: usize = 0;
    while n < attrs.len()
        invariant
            n <= attrs.len(),
            attribute_at(attrs@, name@, n as int) == -1,
        decreases attrs.len() - n,
    {
        if Ident::from_py(attrs[n].name.as_str()).equals(name) {
            proof {
                lemma_attribute_at_stays(attrs@, name@, n as int + 1, attrs.len() as int);
            }
            return Some(n);
        }
        n += 1;
    }
    None
}

/// A list of things that have a path for a name.
pub trait Named: Model {
    /// The path of the thing.
    spec fn path_of(v: Self::V) -> PathView;

    /// The path of the thing.
    fn path(&self) -> (p: &Path)
        ensures
            p@ == Self::path_of(self@),
    ;
}

impl Named for Class {
    open spec fn path_of(v: ClassView) -> PathView {
        v.name
    }

    fn path(&self) -> (p: &Path) {
        &self.name
    }
}

impl Named for TypeVar {
    open spec fn path_of(v: TypeVarView) -> PathView {
        v.name
    }

    fn path(&self) -> (p: &Path) {
        &self.name
    }
}

impl Named for Function {
    open spec fn path_of(v: FunctionView) -> PathView {
        v.name
    }

    fn path(&self) -> (p: &Path) {
        &self.name
    }
}

impl Named for Property {
    open spec fn path_of(v: PropertyView) -> PathView {
        v.name
    }

    fn path(&self) -> (p: &Path) {
        &self.name
    }
}

/// The position of the first item of `list` that is called `path`.
fn find_named<T: Named>(list: &Vec<T>, path: &Path) -> (r: Option<usize>)
    ensures
        match r {
            Some(i) => i < list.len() && path_at(
                Seq::new(list.len() as nat, |k: int| T::path_of(list[k]@)),
                path@,
                list.len() as int,
            ) == i,
            None => path_at(
                Seq::new(list.len() as nat, |k: int| T::path_of(list[k]@)),
                path@,
                list.len() as int,
            ) == -1,
        },
{
    let ghost paths = Seq::new(list.len() as nat, |k: int| T::path_of(list[k]@));
    let mut n: usize = 0;
    while n < list.len()
        invariant
            n <= list.len(),
            paths == Seq::new(list.len() as nat, |k: int| T::path_of(list[k]@)),
            path_at(paths, path@, n as int) == -1,
        decreases list.len() - n,
    {
        if list[n].path().equals(path) {
            proof {
                lemma_path_at_stays(paths, path@, n as int + 1, list.len() as int);
            }
            return Some(n);
        }
        n += 1;
    }
    None
}

impl Found {
    /// Takes in what the attribute at position `k` turns out to be.
    fn add_attribute(
        &mut self,
        cfg: &Config,
        facts: &ModuleFacts,
        owner: &Path,
        k: usize,
        to_process: &Vec<Ident>,
    )
        requires
            k < facts.attributes.len(),
            owner@ == path_from_py(facts.name@),
            views(to_process@) == submodules_to_process(cfg@, facts, k as int),
        ensures
            final(self).gathered() == with_item(
                old(self).gathered(),
                attribute_item(cfg@, facts, k as int),
            ),
    {
        let a = &facts.attributes[k];
        if !is_attribute_considered(cfg, &facts.attributes, k) {
            return ;
        }
        let name = Ident::from_py(a.name.as_str());
        let full = owner.child(&name);
        match AttributeVariant::determine(
            &a.traits,
            &Path::from_py(a.module.as_str()),
            owner,
            true,
        ) {
            AttributeVariant::Import => {
                let origin = origin_of(a);
                if origin.equals(&full) || !is_origin_allowed(cfg, &origin) {
                    return ;
                }
                let conflict = holds_ident(to_process, &name);
                let import = Import::new(origin, full);
                if conflict {
                    push_item(&mut self.conflicts, import);
                } else {
                    push_item(&mut self.imports, import);
                }
            },
            AttributeVariant::Class => {
                match &a.class {
                    Some(c) => {
                        push_item(&mut self.classes, Class::parse(cfg, c, full));
                    },
                    None => {},
                }
            },
            AttributeVariant::TypeVar => {
                push_item(&mut self.type_vars, TypeVar::new(full));
            },
            AttributeVariant::Function => {
                match &a.function {
                    Some(f) => match Function::parse(cfg, f, full, FunctionType::Function) {
                        Some(function) => {
                            push_item(&mut self.functions, function);
                        },
                        None => {},
                    },
                    None => {},
                }
            },
            AttributeVariant::Closure => {
                match &a.function {
                    Some(f) => match Function::parse(cfg, f, full, FunctionType::Closure) {
                        Some(function) => {
                            push_item(&mut self.functions, function);
                        },
                        None => {},
                    },
                    None => {},
                }
            },
            AttributeVariant::Property => {
                match &a.property {
                    Some(p) => {
                        push_item(
                            &mut self.properties,
                            Property::parse(cfg, p, full, PropertyOwner::Module),
                        );
                    },
                    None => {},
                }
            },
            _ => {},
        }
    }

    /// Takes from the submodule `sub` what it defines at the origin of the
    /// import `c`.
    fn pull(&mut self, sub: &Module, c: usize)
        requires
            c < old(self).conflicts.len(),
        ensures
            final(self).gathered() == with_pulled(
                old(self).gathered(),
                sub@,
                old(self).gathered().conflicts[c as int],
            ),
    {
        proof {
            sub.lemma_view();
        }
        let origin = self.conflicts[c].origin.clone();
        let target = self.conflicts[c].target.clone();
        assert(views(self.conflicts@)[c as int] == self.conflicts@[c as int]@);
        let ghost v = sub@;
        match find_import(&sub.imports, &origin) {
            Some(i) => {
                assert(v.imports[i as int] == sub.imports[i as int]@);
                let mut import = sub.imports[i].copy();
                import.target = target.clone();
                push_item(&mut self.imports, import);
            },
            None => {},
        }
        assert(Seq::new(sub.classes.len() as nat, |k: int| Class::path_of(sub.classes[k]@)) =~= Seq::new(
            v.classes.len(),
            |k: int| v.classes[k].name,
        ));
        match find_named(&sub.classes, &origin) {
            Some(i) => {
                assert(v.classes[i as int] == sub.classes[i as int]@);
                let mut class = sub.classes[i].copy();
                class.name = target.clone();
                push_item(&mut self.classes, class);
            },
            None => {},
        }
        assert(Seq::new(sub.type_vars.len() as nat, |k: int| TypeVar::path_of(sub.type_vars[k]@))
            =~= Seq::new(v.type_vars.len(), |k: int| v.type_vars[k].name));
        match find_named(&sub.type_vars, &origin) {
            Some(i) => {
                push_item(&mut self.type_vars, TypeVar::new(target.clone()));
            },
            None => {},
        }
        assert(Seq::new(sub.functions.len() as nat, |k: int| Function::path_of(sub.functions[k]@))
            =~= Seq::new(v.functions.len(), |k: int| v.functions[k].name));
        match find_named(&sub.functions, &origin) {
            Some(i) => {
                assert(v.functions[i as int] == sub.functions[i as int]@);
                let mut function = sub.functions[i].copy();
                function.name = target.clone();
                push_item(&mut self.functions, function);
            },
            None => {},
        }
        assert(Seq::new(
            sub.properties.len() as nat,
            |k: int| Property::path_of(sub.properties[k]@),
        ) =~= Seq::new(v.properties.len(), |k: int| v.properties[k].name));
        match find_named(&sub.properties, &origin) {
            Some(i) => {
                assert(v.properties[i as int] == sub.properties[i as int]@);
                let mut property = sub.properties[i].copy();
                property.name = target.clone();
                push_item(&mut self.properties, property);
            },
            None => {},
        }
    }
}

impl Module {
    /// Goes into the submodule that the module knows as `name`.
    fn parse_submodule(
        cfg: &Config,
        facts: &ModuleFacts,
        owner: &Path,
        found: &mut Found,
        name: &Ident,
    )
        requires
            owner@ == path_from_py(facts.name@),
        ensures
            final(found).gathered() == with_submodule(cfg@, facts, old(found).gathered(), name@),
        decreases facts, 0nat,
    {
        let full = owner.child(name);
        let conflict = find_import(&found.conflicts, &full);
        match find_submodule(&facts.submodules, name) {
            Some(j) => {
                let sub = Module::parse(cfg, &facts.submodules[j].module);
                match conflict {
                    Some(c) => {
                        found.pull(&sub, c);
                    },
                    None => {
                        push_item(&mut found.submodules, sub);
                    },
                }
            },
            None => {},
        }
    }

    /// Goes into the submodules `names`.
    fn parse_submodules(
        cfg: &Config,
        facts: &ModuleFacts,
        owner: &Path,
        found: &mut Found,
        names: &Vec<Ident>,
    )
        requires
            owner@ == path_from_py(facts.name@),
        ensures
            final(found).gathered() == with_submodules(
                cfg@,
                facts,
                old(found).gathered(),
                views(names@),
                names.len() as int,
            ),
        decreases facts, 1nat,
    {
        let ghost start = found.gathered();
        let mut n: usize = 0;
        while n < names.len()
            invariant
                n <= names.len(),
                owner@ == path_from_py(facts.name@),
                found.gathered() == with_submodules(cfg@, facts, start, views(names@), n as int),
            decreases names.len() - n,
        {
            assert(views(names@)[n as int] == names@[n as int]@);
            Module::parse_submodule(cfg, facts, owner, found, &names[n]);
            n += 1;
        }
    }

    /// The names that the module declares as its public surface, each once.
    fn declared_names(facts: &ModuleFacts) -> (out: Vec<Ident>)
        ensures
            views(out@) == index_names(facts),
    {
        let mut out: Vec<Ident> = Vec::new();
        assert(views(out@) =~= Seq::<Seq<char>>::empty());
        match &facts.index {
            Some(v) => {
                let ghost all = Seq::new(v.len() as nat, |i: int| rs_form(v[i]@));
                let mut i: usize = 0;
                assert(all.take(0) =~= Seq::<Seq<char>>::empty());
                while i < v.len()
                    invariant
                        i <= v.len(),
                        all == Seq::new(v.len() as nat, |i: int| rs_form(v[i]@)),
                        views(out@) == unique(all.take(i as int)),
                    decreases v.len() - i,
                {
                    assert(all.take(i as int + 1).drop_last() =~= all.take(i as int));
                    let name = Ident::from_py(v[i].as_str());
                    if !holds_ident(&out, &name) {
                        push_item(&mut out, name);
                    }
                    i += 1;
                }
                assert(all.take(v.len() as int) =~= all);
            },
            None => {},
        }
        out
    }

    /// Whether the declared public surface is what is public anyway.
    fn is_index_default(facts: &ModuleFacts, declared: &Vec<Ident>) -> (r: bool)
        requires
            views(declared@) == index_names(facts),
        ensures
            r == index_is_default(facts),
    {
        let ghost d = index_names(facts);
        let ghost names = attribute_names(facts.attributes@);
        let mut i: usize = 0;
        while i < declared.len()
            invariant
                i <= declared.len(),
                d == views(declared@),
                d == index_names(facts),
                names == attribute_names(facts.attributes@),
                forall|j: int|
                    0 <= j < i ==> names.contains(#[trigger] d[j]) && public_by_default(d[j]),
            decreases declared.len() - i,
        {
            assert(d[i as int] == declared@[i as int]@);
            let found = find_attribute(&facts.attributes, &declared[i]);
            proof {
                lemma_attribute_at_contains(
                    facts.attributes@,
                    d[i as int],
                    facts.attributes.len() as int,
                );
            }
            if found.is_none() || crate::config::is_private_name(declared[i].as_py()) {
                return false;
            }
            i += 1;
        }
        let mut k: usize = 0;
        while k < facts.attributes.len()
            invariant
                k <= facts.attributes.len(),
                d == views(declared@),
                d == index_names(facts),
                names == attribute_names(facts.attributes@),
                forall|j: int|
                    0 <= j < d.len() ==> names.contains(#[trigger] d[j]) && public_by_default(d[j]),
                forall|j: int|
                    0 <= j < k && public_by_default(#[trigger] names[j]) ==> d.contains(names[j]),
            decreases facts.attributes.len() - k,
        {
            let name = Ident::from_py(facts.attributes[k].name.as_str());
            assert(names[k as int] == name@);
            if !crate::config::is_private_name(name.as_py()) && !holds_ident(declared, &name) {
                return false;
            }
            k += 1;
        }
        true
    }

    /// The prelude of the module.
    fn extract_prelude(cfg: &Config, facts: &ModuleFacts, owner: &Path) -> (out: Vec<Ident>)
        requires
            owner@ == path_from_py(facts.name@),
        ensures
            views(out@) == parsed_prelude(cfg@, facts),
    {
        let mut out: Vec<Ident> = Vec::new();
        assert(views(out@) =~= Seq::<Seq<char>>::empty());
        if !cfg.generate_preludes {
            return out;
        }
        let declared = Module::declared_names(facts);
        if Module::is_index_default(facts, &declared) {
            return out;
        }
        let mut n: usize = 0;
        while n < declared.len()
            invariant
                n <= declared.len(),
                owner@ == path_from_py(facts.name@),
                views(declared@) == index_names(facts),
                views(out@) == kept_exports(cfg@, facts, n as int),
            decreases declared.len() - n,
        {
            let name = &declared[n];
            assert(views(declared@)[n as int] == name@);
            if cfg.is_attr_allowed(name, owner) {
                push_item(&mut out, name.clone());
            }
            n += 1;
        }
        out
    }

    /// Reads a module, with all below it, from what the runtime tells about
    /// it.
    pub fn parse(cfg: &Config, facts: &ModuleFacts) -> (m: Module)
        ensures
            m@ == parsed_module(cfg@, facts),
        decreases facts, 2nat,
    {
        let name = Path::from_py(facts.name.as_str());
        let prelude = Module::extract_prelude(cfg, facts, &name);
        let mut to_process = packaged_names(cfg, facts, &name);
        let mut found = Found::new();
        let mut k: usize = 0;
        while k < facts.attributes.len()
            invariant
                k <= facts.attributes.len(),
                name@ == path_from_py(facts.name@),
                views(to_process@) == submodules_to_process(cfg@, facts, k as int),
                found.gathered() == gathered(cfg@, facts, k as int),
            decreases facts.attributes.len() - k,
        {
            found.add_attribute(cfg, facts, &name, k, &to_process);
            let a = &facts.attributes[k];
            if is_attribute_considered(cfg, &facts.attributes, k) {
                let variant = AttributeVariant::determine(
                    &a.traits,
                    &Path::from_py(a.module.as_str()),
                    &name,
                    true,
                );
                let attr_name = Ident::from_py(a.name.as_str());
                if variant == AttributeVariant::Module && !holds_ident(&to_process, &attr_name) {
                    push_item(&mut to_process, attr_name);
                }
            }
            k += 1;
        }
        if cfg.traverse_submodules {
            Module::parse_submodules(cfg, facts, &name, &mut found, &to_process);
        }
        let m = Module {
            name,
            prelude,
            imports: found.imports,
            submodules: found.submodules,
            classes: found.classes,
            type_vars: found.type_vars,
            functions: found.functions,
            properties: found.properties,
            docstring: keep_docstring(facts.doc.as_str()),
            is_package: facts.is_package,
        };
        proof {
            m.lemma_view();
        }
        m
    }
}

/// Those of the first `n` submodules to go into whose paths the registry
/// `processed` does not hold yet.
pub open spec fn unvisited(
    owner: PathView,
    names: Seq<Seq<char>>,
    processed: Seq<PathView>,
    n: int,
) -> Seq<
    Seq<char>,
>
    decreases n,
{
    if n <= 0 {
        Seq::empty()
    } else if processed.contains(
        PathView {
            leading_colon: owner.leading_colon,
            segments: owner.segments.push(names[n - 1]),
        },
    ) {
        unvisited(owner, names, processed, n - 1)
    } else {
        unvisited(owner, names, processed, n - 1).push(names[n - 1])
    }
}

/// The submodules of the module that a run still has to look into: those to
/// go into, without those that the run has looked into already.
pub open spec fn submodules_to_visit(
    cfg: ConfigView,
    facts: &ModuleFacts,
    processed: Seq<PathView>,
) -> Seq<
    Seq<char>,
> {
    let names = submodules_to_process(cfg, facts, facts.attributes.len() as int);
    if cfg.traverse_submodules {
        unvisited(path_from_py(facts.name@), names, processed, names.len() as int)
    } else {
        Seq::empty()
    }
}

impl Module {
    /// The submodules to go into.
    pub fn names_to_process(cfg: &Config, facts: &ModuleFacts) -> (out: Vec<Ident>)
        ensures
            views(out@) == submodules_to_process(cfg@, facts, facts.attributes.len() as int),
    {
        let name = Path::from_py(facts.name.as_str());
        let mut to_process = packaged_names(cfg, facts, &name);
        let mut k: usize = 0;
        while k < facts.attributes.len()
            invariant
                k <= facts.attributes.len(),
                name@ == path_from_py(facts.name@),
                views(to_process@) == submodules_to_process(cfg@, facts, k as int),
            decreases facts.attributes.len() - k,
        {
            let a = &facts.attributes[k];
            if is_attribute_considered(cfg, &facts.attributes, k) {
                let variant = AttributeVariant::determine(
                    &a.traits,
                    &Path::from_py(a.module.as_str()),
                    &name,
                    true,
                );
                let attr_name = Ident::from_py(a.name.as_str());
                if variant == AttributeVariant::Module && !holds_ident(&to_process, &attr_name) {
                    push_item(&mut to_process, attr_name);
                }
            }
            k += 1;
        }
        to_process
    }

    /// The submodules that a run still has to look into, given the registry
    /// of the paths of the modules that it has looked into already. Going by
    /// it, a run looks into no module twice, however the modules refer to
    /// each other.
    pub fn submodules_to_visit(cfg: &Config, facts: &ModuleFacts, processed: &Vec<Path>) -> (out:
        Vec<Ident>)
        ensures
            views(out@) == submodules_to_visit(cfg@, facts, views(processed@)),
    {
        let mut out: Vec<Ident> = Vec::new();
        assert(views(out@) =~= Seq::<Seq<char>>::empty());
        if !cfg.traverse_submodules {
            return out;
        }
        let owner = Path::from_py(facts.name.as_str());
        let names = Module::names_to_process(cfg, facts);
        let mut n: usize = 0;
        while n < names.len()
            invariant
                n <= names.len(),
                owner@ == path_from_py(facts.name@),
                views(out@) == unvisited(owner@, views(names@), views(processed@), n as int),
            decreases names.len() - n,
        {
            assert(views(names@)[n as int] == names@[n as int]@);
            if !holds(processed, &owner.child(&names[n])) {
                push_item(&mut out, names[n].clone());
            }
            n += 1;
        }
        out
    }
}

/// Whether the first `k` attributes of the module are plain values: none
/// is a module, a class, a function or an import.
pub open spec fn values_only(facts: &ModuleFacts, k: int) -> bool {
    forall|i: int|
        0 <= i < k ==> attribute_variant(
            #[trigger] &facts.attributes[i],
            path_from_py(facts.name@),
        ) == AttributeVariant::Property
}

/// Attributes that are plain values make properties and nothing else.
pub proof fn lemma_values_gathered(cfg: ConfigView, facts: &ModuleFacts, k: int)
    requires
        0 <= k <= facts.attributes.len(),
        values_only(facts, k),
    ensures
        gathered(cfg, facts, k).imports.len() == 0,
        gathered(cfg, facts, k).conflicts.len() == 0,
        gathered(cfg, facts, k).submodules.len() == 0,
        gathered(cfg, facts, k).classes.len() == 0,
        gathered(cfg, facts, k).type_vars.len() == 0,
        gathered(cfg, facts, k).functions.len() == 0,
        gathered(cfg, facts, k).properties.len() <= k,
        submodules_to_process(cfg, facts, k) == submodules_to_process(cfg, facts, 0),
    decreases k,
{
    if k > 0 {
        lemma_values_gathered(cfg, facts, k - 1);
        assert(attribute_variant(&facts.attributes[k - 1], path_from_py(facts.name@))
            == AttributeVariant::Property);
    }
}

/// A module that is no package and whose attributes are plain values holds
/// properties only: no import, submodule, class, type variable or function.
/// Where it has one attribute that passes the filter on names, it holds the
/// one property of that name, owned by the module.
pub proof fn lemma_module_of_values(cfg: ConfigView, facts: &ModuleFacts)
    requires
        !facts.is_package,
        values_only(facts, facts.attributes.len() as int),
    ensures
        parsed_module(cfg, facts).imports.len() == 0,
        parsed_module(cfg, facts).submodules.len() == 0,
        parsed_module(cfg, facts).classes.len() == 0,
        parsed_module(cfg, facts).type_vars.len() == 0,
        parsed_module(cfg, facts).functions.len() == 0,
        parsed_module(cfg, facts).properties.len() <= facts.attributes.len(),
        facts.attributes.len() == 1 && attribute_considered(cfg, facts.attributes@, 0)
            && facts.attributes[0].property is Some ==> parsed_module(cfg, facts).properties
            == seq![
            parsed_property(
                &facts.attributes[0].property->0,
                member_path(path_from_py(facts.name@), facts.attributes[0].name@),
                PropertyOwner::Module,
            ),
        ],
{
    let n = facts.attributes.len() as int;
    lemma_values_gathered(cfg, facts, n);
    let names = submodules_to_process(cfg, facts, n);
    assert(names.len() == 0);
    if n == 1 {
        reveal_with_fuel(gathered, 2);
        assert(attribute_variant(&facts.attributes[0], path_from_py(facts.name@))
            == AttributeVariant::Property);
        if attribute_considered(cfg, facts.attributes@, 0) && facts.attributes[0].property is Some {
            assert(gathered(cfg, facts, 1).properties =~= seq![
                parsed_property(
                    &facts.attributes[0].property->0,
                    member_path(path_from_py(facts.name@), facts.attributes[0].name@),
                    PropertyOwner::Module,
                ),
            ]);
        }
    }
}

/// Whether the declared name `name` passes the filter on names as an
/// attribute of the module.
pub open spec fn export_filter(cfg: ConfigView, facts: &ModuleFacts) -> spec_fn(Seq<char>) -> bool {
    |name: Seq<char>| export_kept(cfg, facts, name)
}

/// The first `n` declared names that are kept are those among them that
/// pass the filter on names, in the order in which they are declared.
pub proof fn lemma_kept_exports_filter(cfg: ConfigView, facts: &ModuleFacts, n: int)
    requires
        0 <= n <= index_names(facts).len(),
    ensures
        kept_exports(cfg, facts, n) == index_names(facts).take(n).filter(
            export_filter(cfg, facts),
        ),
    decreases n,
{
    reveal(Seq::filter);
    let declared = index_names(facts);
    if n > 0 {
        lemma_kept_exports_filter(cfg, facts, n - 1);
        assert(declared.take(n).drop_last() =~= declared.take(n - 1));
        assert(declared.take(n).last() == declared[n - 1]);
    }
}

/// A module that declares as its public surface exactly the names that are
/// public anyway has no prelude.
pub proof fn lemma_prelude_empty_where_default(cfg: ConfigView, facts: &ModuleFacts)
    requires
        index_is_default(facts),
    ensures
        parsed_prelude(cfg, facts) == Seq::<Seq<char>>::empty(),
        parsed_module(cfg, facts).prelude.len() == 0,
{
}

/// Where preludes are generated and the declared public surface differs
/// from what is public anyway, the prelude is the declared names, in their
/// order and each once, without those that the filter on names rejects: it
/// holds a name exactly where the name is declared and passes the filter.
pub proof fn lemma_prelude_is_declared(cfg: ConfigView, facts: &ModuleFacts)
    requires
        cfg.generate_preludes,
        !index_is_default(facts),
    ensures
        parsed_prelude(cfg, facts) == index_names(facts).filter(export_filter(cfg, facts)),
        parsed_module(cfg, facts).prelude == parsed_prelude(cfg, facts),
        index_names(facts).no_duplicates(),
        forall|name: Seq<char>|
            parsed_prelude(cfg, facts).contains(name) <==> index_names(facts).contains(name)
                && attr_allowed(cfg, name, path_from_py(facts.name@).segments),
{
    let declared = index_names(facts);
    let keep = export_filter(cfg, facts);
    lemma_kept_exports_filter(cfg, facts, declared.len() as int);
    assert(declared.take(declared.len() as int) =~= declared);
    match &facts.index {
        Some(v) => {
            crate::model::lemma_unique_no_duplicates(
                Seq::new(v.len() as nat, |i: int| rs_form(v[i]@)),
            );
        },
        None => {},
    }
    assert forall|name: Seq<char>|
        declared.filter(keep).contains(name) <==> declared.contains(name) && attr_allowed(
            cfg,
            name,
            path_from_py(facts.name@).segments,
        ) by {
        if declared.filter(keep).contains(name) {
            declared.lemma_filter_contains_rev(keep, name);
            let i = choose|i: int|
                0 <= i < declared.filter(keep).len() && declared.filter(keep)[i] == name;
            declared.lemma_filter_pred(keep, i);
        }
        if declared.contains(name) && keep(name) {
            let i = choose|i: int| 0 <= i < declared.len() && declared[i] == name;
            declared.lemma_filter_contains(keep, i);
        }
    }
}

/// An attribute is found by its name where the names hold it, and only
/// there.
proof fn lemma_attribute_at_contains(attrs: Seq<AttributeFacts>, name: Seq<char>, n: int)
    requires
        0 <= n <= attrs.len(),
    ensures
        (attribute_at(attrs, name, n) >= 0) == (exists|i: int|
            0 <= i < n && #[trigger] attribute_names(attrs)[i] == name),
    decreases n,
{
    let names = attribute_names(attrs);
    if n > 0 {
        lemma_attribute_at_contains(attrs, name, n - 1);
        if exists|i: int| 0 <= i < n - 1 && #[trigger] names[i] == name {
            let i = choose|i: int| 0 <= i < n - 1 && #[trigger] names[i] == name;
            assert(0 <= i < n && names[i] == name);
        }
        if rs_form(attrs[n - 1].name@) == name {
            assert(names[n - 1] == name);
        }
        if exists|i: int| 0 <= i < n && #[trigger] names[i] == name {
            let i = choose|i: int| 0 <= i < n && #[trigger] names[i] == name;
            if i < n - 1 {
                assert(0 <= i < n - 1 && names[i] == name);
            }
        }
    }
}

} // verus!
