//! The engine: it collects modules, brings them into their canonical form
//! and writes the code for all of them.

use crate::canonical::{canonical_forest, canonical_modules};
use crate::config::{Config, ConfigView};
use crate::error::PyBindgenError;
use crate::model::{extend_unique, unique};
use crate::path::{import_candidate_texts, Path, PathView};
use crate::syntax::class::ClassView;
use crate::syntax::function::{
    Function, FunctionType, FunctionTypeView, FunctionView, MethodType,
};
use crate::syntax::function_generate::holder;
use crate::syntax::import::ImportType;
use crate::syntax::module::{Module, ModuleView};
use crate::syntax::module_parse::{parsed_module, ModuleFacts};
use crate::syntax::module_generate::{concat, module_code, module_fit, scene};
use crate::text::{push_item, views};
use crate::traits::Canonicalize;
use vstd::prelude::*;

verus! {

/// The paths of the classes and type variables of `m` and of the modules
/// below it.
pub open spec fn types_of(m: ModuleView) -> Seq<PathView>
    decreases m, 1nat,
{
    Seq::new(m.classes.len(), |i: int| m.classes[i].name) + Seq::new(
        m.type_vars.len(),
        |i: int| m.type_vars[i].name,
    ) + types_of_all(m.submodules)
}

/// The paths of the classes and type variables of a forest.
pub open spec fn types_of_all(list: Seq<ModuleView>) -> Seq<PathView>
    decreases list, 0nat,
{
    if list.len() == 0 {
        Seq::empty()
    } else {
        types_of_all(list.drop_last()) + types_of(list.last())
    }
}

/// The paths from which `m`, and the modules below it, import what lies
/// outside their package.
pub open spec fn external_origins(m: ModuleView) -> Seq<PathView>
    decreases m, 1nat,
{
    external_among(m.imports, m.imports.len() as int) + external_origins_all(m.submodules)
}

/// The origins of those of the first `n` imports that lie outside the
/// package.
pub open spec fn external_among(imports: Seq<crate::syntax::import::ImportView>, n: int) -> Seq<
    PathView,
>
    decreases n,
{
    if n <= 0 {
        Seq::empty()
    } else if imports[n - 1].import_type == ImportType::ExternalImport {
        external_among(imports, n - 1).push(imports[n - 1].origin)
    } else {
        external_among(imports, n - 1)
    }
}

/// The paths from which the modules of a forest import what lies outside
/// their package.
pub open spec fn external_origins_all(list: Seq<ModuleView>) -> Seq<PathView>
    decreases list, 0nat,
{
    if list.len() == 0 {
        Seq::empty()
    } else {
        external_origins_all(list.drop_last()) + external_origins(list.last())
    }
}

/// The scope that holds what lies at `path`, where `path` names anything.
pub open spec fn scope_of(path: PathView) -> PathView {
    if path.segments.len() > 0 {
        holder(path)
    } else {
        path
    }
}

/// The path at which the code for the function `f` fetches an object from
/// the interpreter: that of its class for a method that is not called on an
/// object, that of its module for a function. A method that is called on an
/// object, or is of unknown kind, fetches none.
pub open spec fn fetched_by(f: FunctionView) -> Option<PathView> {
    match f.typ {
        FunctionTypeView::Method { class_path, typ: m } => if m == MethodType::InstanceMethod || m
            == MethodType::Callable || m == MethodType::Unknown {
            None
        } else {
            Some(class_path)
        },
        _ => Some(scope_of(f.name)),
    }
}

/// The paths that the code for the first `n` of the functions `fs` fetches.
pub open spec fn fetched_by_functions(fs: Seq<FunctionView>, n: int) -> Seq<PathView>
    decreases n,
{
    if n <= 0 {
        Seq::empty()
    } else {
        match fetched_by(fs[n - 1]) {
            Some(p) => fetched_by_functions(fs, n - 1).push(p),
            None => fetched_by_functions(fs, n - 1),
        }
    }
}

/// The paths that the code for the methods of the first `n` of the classes
/// `cs` fetches.
pub open spec fn fetched_by_classes(cs: Seq<ClassView>, n: int) -> Seq<PathView>
    decreases n,
{
    if n <= 0 {
        Seq::empty()
    } else {
        fetched_by_classes(cs, n - 1) + fetched_by_functions(
            cs[n - 1].methods,
            cs[n - 1].methods.len() as int,
        )
    }
}

/// The paths that the code for `m`, and for the modules below it, fetches
/// from the interpreter: those for its functions, for its properties, which
/// are read from their module, and for the methods of its classes.
pub open spec fn fetched_paths(m: ModuleView) -> Seq<PathView>
    decreases m, 1nat,
{
    fetched_by_functions(m.functions, m.functions.len() as int) + Seq::new(
        m.properties.len(),
        |i: int| scope_of(m.properties[i].name),
    ) + fetched_by_classes(m.classes, m.classes.len() as int) + fetched_paths_all(m.submodules)
}

/// The paths that the code for a forest fetches from the interpreter.
pub open spec fn fetched_paths_all(list: Seq<ModuleView>) -> Seq<PathView>
    decreases list, 0nat,
{
    if list.len() == 0 {
        Seq::empty()
    } else {
        fetched_paths_all(list.drop_last()) + fetched_paths(list.last())
    }
}

/// The modules that are tried to find those whose import reaches the first
/// `n` of `paths`.
pub open spec fn candidates_of(paths: Seq<PathView>, n: int) -> Seq<Seq<char>>
    decreases n,
{
    if n <= 0 {
        Seq::empty()
    } else {
        candidates_of(paths, n - 1) + import_candidate_texts(paths[n - 1])
    }
}

/// The scope that holds what lies at `path`.
fn holder_of(path: &Path) -> (p: Path)
    ensures
        p@ == scope_of(path@),
{
    let n = path.len();
    if n == 0 {
        path.clone()
    } else {
        let mut p = path.prefix(n - 1);
        p.leading_colon = path.leading_colon;
        assert(path@.segments.take(n - 1) =~= path@.segments.drop_last());
        p
    }
}

/// Collects the paths that the code for the functions `fs` fetches.
fn collect_fetched_by(fs: &Vec<Function>, out: &mut Vec<Path>)
    ensures
        views(final(out)@) == views(old(out)@) + fetched_by_functions(
            views(fs@),
            fs.len() as int,
        ),
{
    let ghost start = views(out@);
    let ghost all = views(fs@);
    let mut i: usize = 0;
    assert(start + Seq::<PathView>::empty() =~= start);
    while i < fs.len()
        invariant
            i <= fs.len(),
            all == views(fs@),
            views(out@) == start + fetched_by_functions(all, i as int),
        decreases fs.len() - i,
    {
        assert(all[i as int] == fs@[i as int]@);
        let ghost before = fetched_by_functions(all, i as int);
        match &fs[i].typ {
            FunctionType::Method { class_path, typ } => {
                if !(*typ == MethodType::InstanceMethod || *typ == MethodType::Callable || *typ
                    == MethodType::Unknown) {
                    push_item(out, class_path.clone());
                    assert(views(out@) =~= start + before.push(class_path@));
                }
            },
            _ => {
                let p = holder_of(&fs[i].name);
                push_item(out, p);
                assert(views(out@) =~= start + before.push(p@));
            },
        }
        i += 1;
    }
}

/// Collects the paths that the code for a forest fetches.
fn collect_fetched(list: &Vec<Module>) -> (out: Vec<Path>)
    ensures
        views(out@) == fetched_paths_all(views(list@)),
    decreases list, 0nat,
{
    let ghost all = views(list@);
    let mut out: Vec<Path> = Vec::new();
    let mut i: usize = 0;
    assert(all.take(0) =~= Seq::<ModuleView>::empty());
    assert(views(out@) =~= Seq::<PathView>::empty());
    while i < list.len()
        invariant
            i <= list.len(),
            all == views(list@),
            views(out@) == fetched_paths_all(all.take(i as int)),
        decreases list.len() - i,
    {
        assert(all.take(i as int + 1).drop_last() =~= all.take(i as int));
        assert(all.take(i as int + 1).last() == list@[i as int]@);
        let mut more = collect_fetched_of(&list[i]);
        append_paths(&mut out, &mut more);
        i += 1;
    }
    assert(all.take(list.len() as int) =~= all);
    out
}

/// Collects the paths that the code for a module, and for the modules below
/// it, fetches.
fn collect_fetched_of(m: &Module) -> (out: Vec<Path>)
    ensures
        views(out@) == fetched_paths(m@),
    decreases m, 1nat,
{
    proof {
        m.lemma_view();
    }
    let ghost v = m@;
    let mut out: Vec<Path> = Vec::new();
    assert(views(out@) =~= Seq::<PathView>::empty());
    collect_fetched_by(&m.functions, &mut out);
    let ghost a = fetched_by_functions(v.functions, v.functions.len() as int);
    assert(views(out@) =~= a);
    let ghost b = Seq::new(v.properties.len(), |i: int| scope_of(v.properties[i].name));
    let mut i: usize = 0;
    assert(a + b.take(0) =~= a);
    while i < m.properties.len()
        invariant
            i <= m.properties.len(),
            v == m@,
            b == Seq::new(v.properties.len(), |i: int| scope_of(v.properties[i].name)),
            views(out@) == a + b.take(i as int),
        decreases m.properties.len() - i,
    {
        push_item(&mut out, holder_of(&m.properties[i].name));
        assert(views(out@) =~= a + b.take(i as int + 1));
        i += 1;
    }
    assert(b.take(m.properties.len() as int) =~= b);
    let mut k: usize = 0;
    assert(a + b + fetched_by_classes(v.classes, 0) =~= a + b);
    while k < m.classes.len()
        invariant
            k <= m.classes.len(),
            v == m@,
            views(out@) == a + b + fetched_by_classes(v.classes, k as int),
        decreases m.classes.len() - k,
    {
        assert(v.classes[k as int] == m.classes[k as int]@);
        let ghost before = fetched_by_classes(v.classes, k as int);
        collect_fetched_by(&m.classes[k].methods, &mut out);
        assert(views(out@) =~= a + b + (before + fetched_by_functions(
            v.classes[k as int].methods,
            v.classes[k as int].methods.len() as int,
        )));
        k += 1;
    }
    let mut below = collect_fetched(&m.submodules);
    append_paths(&mut out, &mut below);
    out
}

/// Collects the paths of the classes and type variables of a forest.
fn collect_types(list: &Vec<Module>) -> (out: Vec<Path>)
    ensures
        views(out@) == types_of_all(views(list@)),
    decreases list, 0nat,
{
    let ghost all = views(list@);
    let mut out: Vec<Path> = Vec::new();
    let mut i: usize = 0;
    assert(all.take(0) =~= Seq::<ModuleView>::empty());
    assert(views(out@) =~= Seq::<PathView>::empty());
    while i < list.len()
        invariant
            i <= list.len(),
            all == views(list@),
            views(out@) == types_of_all(all.take(i as int)),
        decreases list.len() - i,
    {
        assert(all.take(i as int + 1).drop_last() =~= all.take(i as int));
        assert(all.take(i as int + 1).last() == list@[i as int]@);
        let mut more = collect_types_of(&list[i]);
        let ghost before = views(out@);
        let ghost extra = views(more@);
        append_paths(&mut out, &mut more);
        i += 1;
    }
    assert(all.take(list.len() as int) =~= all);
    out
}

/// Moves the paths of `more` to the end of `out`.
fn append_paths(out: &mut Vec<Path>, more: &mut Vec<Path>)
    ensures
        views(final(out)@) == views(old(out)@) + views(old(more)@),
{
    let ghost a = views(out@);
    let ghost b = views(more@);
    out.append(more);
    assert(views(out@) =~= a + b);
}

/// Collects the paths of the classes and type variables of a module and of
/// the modules below it.
fn collect_types_of(m: &Module) -> (out: Vec<Path>)
    ensures
        views(out@) == types_of(m@),
    decreases m, 1nat,
{
    proof {
        m.lemma_view();
    }
    let ghost v = m@;
    let mut out: Vec<Path> = Vec::new();
    let ghost a = Seq::new(v.classes.len(), |i: int| v.classes[i].name);
    let mut i: usize = 0;
    assert(views(out@) =~= a.take(0));
    while i < m.classes.len()
        invariant
            i <= m.classes.len(),
            v == m@,
            a == Seq::new(v.classes.len(), |i: int| v.classes[i].name),
            views(out@) == a.take(i as int),
        decreases m.classes.len() - i,
    {
        push_item(&mut out, m.classes[i].name.clone());
        assert(views(out@) =~= a.take(i as int + 1));
        i += 1;
    }
    assert(a.take(m.classes.len() as int) =~= a);
    let ghost b = Seq::new(v.type_vars.len(), |i: int| v.type_vars[i].name);
    let mut i: usize = 0;
    assert(views(out@) =~= a + b.take(0));
    while i < m.type_vars.len()
        invariant
            i <= m.type_vars.len(),
            v == m@,
            b == Seq::new(v.type_vars.len(), |i: int| v.type_vars[i].name),
            views(out@) == a + b.take(i as int),
        decreases m.type_vars.len() - i,
    {
        push_item(&mut out, m.type_vars[i].name.clone());
        assert(views(out@) =~= a + b.take(i as int + 1));
        i += 1;
    }
    assert(b.take(m.type_vars.len() as int) =~= b);
    let mut below = collect_types(&m.submodules);
    append_paths(&mut out, &mut below);
    out
}

/// Collects the origins of the imports from outside the package in a forest.
fn collect_external(list: &Vec<Module>) -> (out: Vec<Path>)
    ensures
        views(out@) == external_origins_all(views(list@)),
    decreases list, 0nat,
{
    let ghost all = views(list@);
    let mut out: Vec<Path> = Vec::new();
    let mut i: usize = 0;
    assert(all.take(0) =~= Seq::<ModuleView>::empty());
    assert(views(out@) =~= Seq::<PathView>::empty());
    while i < list.len()
        invariant
            i <= list.len(),
            all == views(list@),
            views(out@) == external_origins_all(all.take(i as int)),
        decreases list.len() - i,
    {
        assert(all.take(i as int + 1).drop_last() =~= all.take(i as int));
        assert(all.take(i as int + 1).last() == list@[i as int]@);
        let mut more = collect_external_of(&list[i]);
        append_paths(&mut out, &mut more);
        i += 1;
    }
    assert(all.take(list.len() as int) =~= all);
    out
}

/// Collects the origins of the imports from outside the package in a module
/// and in the modules below it.
fn collect_external_of(m: &Module) -> (out: Vec<Path>)
    ensures
        views(out@) == external_origins(m@),
    decreases m, 1nat,
{
    proof {
        m.lemma_view();
    }
    let ghost v = m@;
    let mut out: Vec<Path> = Vec::new();
    let mut i: usize = 0;
    assert(views(out@) =~= Seq::<PathView>::empty());
    while i < m.imports.len()
        invariant
            i <= m.imports.len(),
            v == m@,
            views(out@) == external_among(v.imports, i as int),
        decreases m.imports.len() - i,
    {
        assert(v.imports[i as int] == m.imports[i as int]@);
        if m.imports[i].is_external() {
            push_item(&mut out, m.imports[i].origin.clone());
        }
        i += 1;
    }
    let mut below = collect_external(&m.submodules);
    append_paths(&mut out, &mut below);
    out
}

/// The engine that generates the bindings for a set of modules.
#[derive(Debug)]
pub struct Codegen {
    pub cfg: Config,
    pub modules: Vec<Module>,
}

/// [`Codegen`] with its modules as a sequence.
pub struct CodegenView {
    pub cfg: ConfigView,
    pub modules: Seq<ModuleView>,
}

impl View for Codegen {
    type V = CodegenView;

    open spec fn view(&self) -> CodegenView {
        CodegenView { cfg: self.cfg@, modules: views(self.modules@) }
    }
}

/// The message of the error that is raised where no module was added.
pub open spec fn no_modules_message() -> Seq<char> {
    "There are no modules for which to generate bindings"@
}

/// The message of the error that is raised where a module holds something
/// without a name.
pub open spec fn unnamed_message() -> Seq<char> {
    "A module holds an item whose path does not name it"@
}

/// Whether all modules of the forest are fit for generating code.
pub open spec fn forest_fit(forest: Seq<ModuleView>) -> bool {
    forall|i: int| 0 <= i < forest.len() ==> module_fit(#[trigger] forest[i])
}

/// The detail of an error that was raised while the code was put together.
pub open spec fn codegen_detail(e: PyBindgenError) -> Option<Seq<char>> {
    match e {
        PyBindgenError::CodegenError(d) => Some(d@),
        _ => None,
    }
}

/// The code of the first `n` modules of the canonical forest `forest`.
pub open spec fn forest_parts(
    cfg: ConfigView,
    forest: Seq<ModuleView>,
    importable: Seq<Seq<char>>,
) -> Seq<Seq<char>> {
    Seq::new(
        forest.len(),
        |i: int|
            module_code(forest[i], scene(cfg, forest, unique(types_of_all(forest)), importable)),
    )
}

/// The generated code of a forest in canonical form: the code of its
/// modules, one behind the other, where each refers to the types of the
/// whole forest.
pub open spec fn forest_code(
    cfg: ConfigView,
    forest: Seq<ModuleView>,
    importable: Seq<Seq<char>>,
) -> Seq<char> {
    concat(forest_parts(cfg, forest, importable))
}

/// Whether `r` is what generating the bindings for the engine `e` gives,
/// where the modules `importable` can be imported.
///
/// The bindings are the code of the canonical forest of the modules that
/// were added. Generating them fails where no module was added, and where
/// the canonical forest is not fit for generating code because an item has
/// a path that does not name it.
pub open spec fn generated(
    e: CodegenView,
    importable: Seq<Seq<char>>,
    r: Result<String, PyBindgenError>,
) -> bool {
    let forest = canonical_forest(e.modules, e.modules.len() as int);
    match r {
        Ok(s) => e.modules.len() > 0 && forest_fit(forest) && s@ == forest_code(
            e.cfg,
            forest,
            importable,
        ),
        Err(err) => if e.modules.len() == 0 {
            codegen_detail(err) == Some(no_modules_message())
        } else {
            !forest_fit(forest) && codegen_detail(err) == Some(unnamed_message())
        },
    }
}

/// Generating the bindings twice for the same modules, with the same options
/// and the same importable modules, gives the same text, or fails both times
/// for the same reason.
pub proof fn lemma_generation_is_deterministic(
    e: CodegenView,
    importable: Seq<Seq<char>>,
    first: Result<String, PyBindgenError>,
    second: Result<String, PyBindgenError>,
)
    requires
        generated(e, importable, first),
        generated(e, importable, second),
    ensures
        first is Ok == second is Ok,
        first is Ok ==> first->Ok_0@ == second->Ok_0@,
        first is Err ==> codegen_detail(first->Err_0) == codegen_detail(second->Err_0)
            && codegen_detail(first->Err_0) is Some,
{
}

impl Codegen {
    /// An engine with the options `cfg` and no module.
    pub fn new(cfg: Config) -> (c: Codegen)
        ensures
            c@ == (CodegenView { cfg: cfg@, modules: Seq::empty() }),
    {
        let c = Codegen { cfg, modules: Vec::new() };
        assert(c@.modules =~= Seq::empty());
        c
    }

    /// Adds a module to those for which bindings are generated.
    pub fn module(self, module: Module) -> (c: Codegen)
        ensures
            c@ == (CodegenView { cfg: self@.cfg, modules: self@.modules.push(module@) }),
    {
        let mut c = self;
        push_item(&mut c.modules, module);
        c
    }

    /// Reads a module from what the runtime tells about it and adds it to
    /// those for which bindings are generated.
    pub fn module_from_facts(self, facts: &ModuleFacts) -> (c: Codegen)
        ensures
            c@ == (CodegenView {
                cfg: self@.cfg,
                modules: self@.modules.push(parsed_module(self@.cfg, facts)),
            }),
    {
        let module = Module::parse(&self.cfg, facts);
        self.module(module)
    }

    /// Adds modules to those for which bindings are generated.
    pub fn modules(self, modules: Vec<Module>) -> (c: Codegen)
        ensures
            c@ == (CodegenView { cfg: self@.cfg, modules: self@.modules + views(modules@) }),
    {
        let mut c = self;
        let mut modules = modules;
        let ghost a = views(c.modules@);
        let ghost b = views(modules@);
        c.modules.append(&mut modules);
        assert(views(c.modules@) =~= a + b);
        c
    }

    /// The paths of all classes and type variables of the modules, each once.
    pub fn get_all_types(&self) -> (out: Vec<Path>)
        ensures
            views(out@) == unique(types_of_all(self@.modules)),
    {
        let all = collect_types(&self.modules);
        let mut out: Vec<Path> = Vec::new();
        assert(views(out@) =~= Seq::<PathView>::empty());
        extend_unique(&mut out, &all);
        assert(Seq::<PathView>::empty() + views(all@) =~= views(all@));
        out
    }

    /// The paths from which the modules import what lies outside their
    /// package, each once: what has to be added for the bindings to hold
    /// their dependencies too.
    pub fn dependencies(&self) -> (out: Vec<Path>)
        ensures
            views(out@) == unique(external_origins_all(self@.modules)),
    {
        let all = collect_external(&self.modules);
        let mut out: Vec<Path> = Vec::new();
        assert(views(out@) =~= Seq::<PathView>::empty());
        extend_unique(&mut out, &all);
        assert(Seq::<PathView>::empty() + views(all@) =~= views(all@));
        out
    }

    /// The modules of which it has to be known whether they can be
    /// imported, each once: those that are tried to find the innermost
    /// module on the way to each object that the generated code fetches.
    pub fn import_candidates(&self) -> (out: Vec<String>)
        ensures
            views(out@) == unique(
                candidates_of(
                    fetched_paths_all(self@.modules),
                    fetched_paths_all(self@.modules).len() as int,
                ),
            ),
    {
        let paths = collect_fetched(&self.modules);
        let ghost all = views(paths@);
        let mut out: Vec<String> = Vec::new();
        assert(views(out@) =~= Seq::<Seq<char>>::empty());
        let mut i: usize = 0;
        while i < paths.len()
            invariant
                i <= paths.len(),
                all == views(paths@),
                views(out@) == unique(candidates_of(all, i as int)),
            decreases paths.len() - i,
        {
            assert(all[i as int] == paths@[i as int]@);
            let more = paths[i].import_candidates();
            proof {
                crate::model::lemma_unique_idempotent(candidates_of(all, i as int));
            }
            extend_unique(&mut out, &more);
            proof {
                crate::model::lemma_unique_append(candidates_of(all, i as int), views(more@));
            }
            i += 1;
        }
        out
    }

    /// Whether all modules are fit for generating code.
    fn is_generatable(&self) -> (r: bool)
        ensures
            r == forest_fit(self@.modules),
    {
        let mut i: usize = 0;
        while i < self.modules.len()
            invariant
                i <= self.modules.len(),
                forall|j: int| 0 <= j < i ==> module_fit(#[trigger] self@.modules[j]),
            decreases self.modules.len() - i,
        {
            assert(self@.modules[i as int] == self.modules[i as int]@);
            if !self.modules[i].is_generatable() {
                return false;
            }
            i += 1;
        }
        true
    }

    /// Writes the code of the modules, which are in canonical form.
    fn write_forest(&self, importable: &Vec<String>) -> (out: String)
        requires
            forest_fit(self@.modules),
        ensures
            out@ == forest_code(self@.cfg, self@.modules, views(importable@)),
    {
        let all_types = self.get_all_types();
        let ghost forest = self@.modules;
        let ghost parts = forest_parts(self@.cfg, forest, views(importable@));
        let mut out = String::new();
        let mut i: usize = 0;
        assert(parts.take(0) =~= Seq::<Seq<char>>::empty());
        while i < self.modules.len()
            invariant
                i <= self.modules.len(),
                forest_fit(forest),
                forest == self@.modules,
                views(all_types@) == unique(types_of_all(forest)),
                parts == forest_parts(self@.cfg, forest, views(importable@)),
                out@ == concat(parts.take(i as int)),
            decreases self.modules.len() - i,
        {
            assert(forest[i as int] == self.modules[i as int]@);
            assert(module_fit(forest[i as int]));
            assert(parts.take(i as int + 1).drop_last() =~= parts.take(i as int));
            out.append(
                self.modules[i].generate(&self.cfg, &self.modules, &all_types, importable).as_str(),
            );
            i += 1;
        }
        assert(parts.take(self.modules.len() as int) =~= parts);
        out
    }

    /// Generates the bindings for all modules that were added, given the
    /// modules that can be imported.
    pub fn generate(self, importable: &Vec<String>) -> (r: Result<String, PyBindgenError>)
        ensures
            generated(self@, views(importable@), r),
    {
        if self.modules.len() == 0 {
            return Err(
                PyBindgenError::CodegenError(
                    String::from_str("There are no modules for which to generate bindings"),
                ),
            );
        }
        let mut engine = self;
        engine.canonicalize();
        if !engine.is_generatable() {
            return Err(
                PyBindgenError::CodegenError(
                    String::from_str("A module holds an item whose path does not name it"),
                ),
            );
        }
        Ok(engine.write_forest(importable))
    }
}

impl Default for Codegen {
    fn default() -> (c: Codegen)
        ensures
            c@ == (CodegenView { cfg: crate::config::default_config(), modules: Seq::empty() }),
    {
        Codegen::new(Config::default())
    }
}

impl Canonicalize for Codegen {
    /// Puts every module below its ancestors and merges the modules of one
    /// name, so that no two siblings of the forest bear one name.
    fn canonicalize(&mut self)
        ensures
            final(self)@ == (CodegenView {
                cfg: old(self)@.cfg,
                modules: canonical_forest(old(self)@.modules, old(self)@.modules.len() as int),
            }),
    {
        self.modules = canonical_modules(&self.modules);
    }
}

} // verus!
