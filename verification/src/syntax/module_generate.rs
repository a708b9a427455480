//! Writing the code for a module and for all below it.

use crate::config::{Config, ConfigView};
use crate::emit::{doc_attribute, doc_attribute_of};
use crate::ident::{ident_accepted, Ident};
use crate::model::holds;
use crate::naming::{fresh, fresh_name};
use crate::path::{
    path_from_py, path_to_py, relative_segments, segments_start_with, Path, PathView,
};
use crate::syntax::class::{class_code, class_placed, function_names};
use crate::syntax::function::Function;
use crate::syntax::function_definition::{FunctionImplementation, FunctionImplementationView};
use crate::syntax::function_generate::{function_code, function_fails, function_placed};
use crate::syntax::import::{import_renames, import_text, import_written, Import, ImportView};
use crate::syntax::module::{Module, ModuleView};
use crate::syntax::module_scope::{all_named, defined_names, path_exists};
use crate::syntax::property::{property_code, property_fails, property_placed};
use crate::syntax::type_var::type_var_text;
use crate::text::{chars_of, has_prefix, push_item, string_of_range, views};
use crate::typing::local_types::{LocalTypeView, LocalTypes};
use vstd::prelude::*;

verus! {

/// The texts of `parts`, one behind the other.
pub open spec fn concat(parts: Seq<Seq<char>>) -> Seq<char>
    decreases parts.len(),
{
    if parts.len() == 0 {
        Seq::empty()
    } else {
        concat(parts.drop_last()) + parts.last()
    }
}

/// The code that a function of a module contributes to the module.
pub open spec fn implementation_text(code: FunctionImplementationView) -> Seq<char> {
    match code {
        FunctionImplementationView::Function(f) => f,
        FunctionImplementationView::Method(m) => m.impl_fn,
    }
}

/// The reference by which the module `m` names the type at `path`.
pub open spec fn reference_from(m: ModuleView, path: PathView) -> PathView {
    PathView { leading_colon: false, segments: relative_segments(m.name, path, false) }
}

/// The text of `text` behind `prefix`, where it starts with it.
pub open spec fn stripped(text: Seq<char>, prefix: Seq<char>) -> Option<Seq<char>> {
    if has_prefix(text, prefix) {
        Some(text.skip(prefix.len() as int))
    } else {
        None
    }
}

/// The path under which code in a module that imports `import` knows the
/// type at `path`, which lies at or below the origin of the import: the name
/// of the import's target, followed by what lies below the first segment
/// behind the origin.
pub open spec fn imported_key(path: PathView, import: ImportView) -> PathView {
    let alias = import.target.segments.last();
    match stripped(path_to_py(path), path_to_py(import.origin) + "."@) {
        Some(rest) => {
            let below = path_from_py(rest);
            if below.segments.len() > 0 {
                PathView { leading_colon: false, segments: below.segments.update(0, alias) }
            } else {
                PathView { leading_colon: false, segments: seq![alias] }
            }
        },
        None => PathView { leading_colon: false, segments: seq![alias] },
    }
}

/// The entries for the first `k` types that are known through `import`.
pub open spec fn import_entries(
    m: ModuleView,
    all_types: Seq<PathView>,
    import: ImportView,
    k: int,
) -> Seq<LocalTypeView>
    decreases k,
{
    if k <= 0 {
        Seq::empty()
    } else if segments_start_with(all_types[k - 1].segments, import.origin.segments) {
        import_entries(m, all_types, import, k - 1).push(
            LocalTypeView {
                key: imported_key(all_types[k - 1], import),
                reference: reference_from(m, all_types[k - 1]),
            },
        )
    } else {
        import_entries(m, all_types, import, k - 1)
    }
}

/// The entries for all types, each under its own path, and then the entries
/// for the types known through the first `n` imports.
pub open spec fn local_entries(m: ModuleView, all_types: Seq<PathView>, n: int) -> Seq<
    LocalTypeView,
>
    decreases n,
{
    if n <= 0 {
        Seq::new(
            all_types.len(),
            |i: int|
                LocalTypeView { key: all_types[i], reference: reference_from(m, all_types[i]) },
        )
    } else {
        local_entries(m, all_types, n - 1) + import_entries(
            m,
            all_types,
            m.imports[n - 1],
            all_types.len() as int,
        )
    }
}

/// The types that code in the module `m` can refer to.
pub open spec fn local_types_of(m: ModuleView, all_types: Seq<PathView>) -> Seq<LocalTypeView> {
    local_entries(m, all_types, m.imports.len() as int)
}

/// Whether a module of `top` defines something at `path`.
pub open spec fn defined_in(top: Seq<ModuleView>, path: PathView) -> bool {
    exists|i: int| 0 <= i < top.len() && path_exists(#[trigger] top[i], path, false)
}

/// Whether the code of the import `im` cannot be written: it needs the name
/// of the target as an alias, and that name is no identifier.
pub open spec fn import_fails(im: ImportView) -> bool {
    import_written(im) && import_renames(im) && !ident_accepted(im.target.segments.last())
}

/// The code of the import at position `i`: written only where its origin is
/// part of the generated tree and the code can be written.
pub open spec fn import_part(m: ModuleView, top: Seq<ModuleView>, i: int) -> Seq<char> {
    if defined_in(top, m.imports[i].origin) && !import_fails(m.imports[i]) {
        import_text(m.imports[i])
    } else {
        Seq::empty()
    }
}

/// Those of the first `n` names of the prelude that can stand in generated
/// code, in the order of the prelude. A name that is no identifier is left
/// out, as any member is whose name cannot be written.
pub open spec fn exports(m: ModuleView, n: int) -> Seq<Seq<char>>
    decreases n,
{
    if n <= 0 {
        Seq::empty()
    } else if ident_accepted(m.prelude[n - 1]) {
        exports(m, n - 1).push(m.prelude[n - 1])
    } else {
        exports(m, n - 1)
    }
}

/// The names `names` as items of a `use` declaration.
pub open spec fn export_items(names: Seq<Seq<char>>) -> Seq<char>
    decreases names.len(),
{
    if names.len() == 0 {
        Seq::empty()
    } else {
        export_items(names.drop_last()) + names.last() + ", "@
    }
}

/// The name of the module that holds the prelude.
pub open spec fn prelude_name(m: ModuleView) -> Seq<char> {
    fresh(defined_names(m, true), "prelude"@)
}

/// The code of the prelude: a module that exports again the names of the
/// module's declared public surface, in their order. Nothing is written
/// where the module has no prelude, and only there.
pub open spec fn prelude_text(m: ModuleView) -> Seq<char> {
    if m.prelude.len() == 0 {
        Seq::empty()
    } else {
        "pub mod "@ + prelude_name(m) + " {\npub use super::{"@ + export_items(
            exports(m, m.prelude.len() as int),
        ) + "};\n}\n"@
    }
}

/// Where every name of the prelude is an identifier, all of them are
/// exported, in the order of the prelude.
pub proof fn lemma_exports_all(m: ModuleView, n: int)
    requires
        0 <= n <= m.prelude.len(),
        forall|i: int| 0 <= i < n ==> ident_accepted(#[trigger] m.prelude[i]),
    ensures
        exports(m, n) == m.prelude.take(n),
    decreases n,
{
    if n > 0 {
        lemma_exports_all(m, n - 1);
        assert(m.prelude.take(n) =~= m.prelude.take(n - 1).push(m.prelude[n - 1]));
    } else {
        assert(m.prelude.take(n) =~= Seq::<Seq<char>>::empty());
    }
}

/// The code of a prelude is written exactly where the module has one.
pub proof fn lemma_prelude_written(m: ModuleView)
    ensures
        (prelude_text(m).len() == 0) == (m.prelude.len() == 0),
{
    reveal_strlit("pub mod ");
}

/// What is needed to write the code of a module.
pub struct Scene {
    pub generate_docs: bool,
    pub generate_imports: bool,
    pub generate_preludes: bool,
    pub generate_type_vars: bool,
    pub generate_classes: bool,
    pub generate_functions: bool,
    pub generate_properties: bool,
    pub traverse_submodules: bool,
    /// The modules at the top of the forest.
    pub top: Seq<ModuleView>,
    /// The paths of all classes and type variables of the forest.
    pub all_types: Seq<PathView>,
    /// The modules that can be imported.
    pub importable: Seq<Seq<char>>,
}

/// The scene that the options `cfg` set.
pub open spec fn scene(
    cfg: ConfigView,
    top: Seq<ModuleView>,
    all_types: Seq<PathView>,
    importable: Seq<Seq<char>>,
) -> Scene {
    Scene {
        generate_docs: cfg.generate_docs,
        generate_imports: cfg.generate_imports,
        generate_preludes: cfg.generate_preludes,
        generate_type_vars: cfg.generate_type_vars,
        generate_classes: cfg.generate_classes,
        generate_functions: cfg.generate_functions,
        generate_properties: cfg.generate_properties,
        traverse_submodules: cfg.traverse_submodules,
        top,
        all_types,
        importable,
    }
}

/// The code of the imports of `m`.
pub open spec fn imports_text(m: ModuleView, s: Scene) -> Seq<char> {
    if s.generate_imports {
        concat(Seq::new(m.imports.len(), |i: int| import_part(m, s.top, i)))
    } else {
        Seq::empty()
    }
}

/// The code of the type variable at position `i`, or nothing where its name
/// is no identifier.
pub open spec fn type_var_part(m: ModuleView, i: int) -> Seq<char> {
    if ident_accepted(m.type_vars[i].name.segments.last()) {
        type_var_text(m.type_vars[i].name.segments.last())
    } else {
        Seq::empty()
    }
}

/// The code of the type variables of `m`.
pub open spec fn type_vars_text(m: ModuleView, s: Scene) -> Seq<char> {
    if s.generate_type_vars {
        concat(Seq::new(m.type_vars.len(), |i: int| type_var_part(m, i)))
    } else {
        Seq::empty()
    }
}

/// The code of the class at position `i`.
pub open spec fn class_part(m: ModuleView, s: Scene, i: int) -> Seq<char> {
    class_code(m.classes[i], s.generate_docs, local_types_of(m, s.all_types), s.importable)
}

/// The code of the classes of `m`.
pub open spec fn classes_text(m: ModuleView, s: Scene) -> Seq<char> {
    if s.generate_classes {
        concat(Seq::new(m.classes.len(), |i: int| class_part(m, s, i)))
    } else {
        Seq::empty()
    }
}

/// The code of the function at position `i`, or nothing where it cannot be
/// written.
pub open spec fn function_part(m: ModuleView, s: Scene, i: int) -> Seq<char> {
    if function_fails(m.functions[i], function_names(m.functions)) {
        Seq::empty()
    } else {
        implementation_text(
            function_code(
                m.functions[i],
                s.generate_docs,
                function_names(m.functions),
                local_types_of(m, s.all_types),
                s.importable,
            ),
        )
    }
}

/// The code of the functions of `m`.
pub open spec fn functions_text(m: ModuleView, s: Scene) -> Seq<char> {
    if s.generate_functions {
        concat(Seq::new(m.functions.len(), |i: int| function_part(m, s, i)))
    } else {
        Seq::empty()
    }
}

/// The code of the property at position `i`, or nothing where it cannot be
/// written.
pub open spec fn property_part(m: ModuleView, s: Scene, i: int) -> Seq<char> {
    if property_fails(m.properties[i], function_names(m.functions)) {
        Seq::empty()
    } else {
        implementation_text(
            property_code(
                m.properties[i],
                s.generate_docs,
                function_names(m.functions),
                local_types_of(m, s.all_types),
                s.importable,
            ),
        )
    }
}

/// The code of the properties of `m`.
pub open spec fn properties_text(m: ModuleView, s: Scene) -> Seq<char> {
    if s.generate_properties {
        concat(Seq::new(m.properties.len(), |i: int| property_part(m, s, i)))
    } else {
        Seq::empty()
    }
}

/// The attribute that silences the lints on generated code.
pub open spec fn allow_attribute() -> Seq<char> {
    "#[allow(clippy::all, clippy::nursery, clippy::pedantic, non_camel_case_types, non_snake_case, non_upper_case_globals, unused)]\n"@
}

/// The code of what the module `m` holds itself.
pub open spec fn members_text(m: ModuleView, s: Scene) -> Seq<char> {
    imports_text(m, s) + (if s.generate_preludes {
        prelude_text(m)
    } else {
        Seq::empty()
    }) + type_vars_text(m, s) + classes_text(m, s) + functions_text(m, s) + properties_text(m, s)
}

/// The code of each submodule of `m`.
pub open spec fn submodule_parts(m: ModuleView, s: Scene) -> Seq<Seq<char>>
    decreases m, 0nat,
{
    Seq::new(
        m.submodules.len(),
        |i: int|
            if 0 <= i < m.submodules.len() {
                module_code(m.submodules[i], s)
            } else {
                Seq::empty()
            },
    )
}

/// The code of the submodules of `m`.
pub open spec fn submodules_text(m: ModuleView, s: Scene) -> Seq<char>
    decreases m, 1nat,
{
    if s.traverse_submodules {
        concat(submodule_parts(m, s))
    } else {
        Seq::empty()
    }
}

/// What stands before the code of what the module `m` holds.
pub open spec fn module_head(m: ModuleView, s: Scene) -> Seq<char> {
    (if s.top.contains(m) {
        allow_attribute()
    } else {
        Seq::empty()
    }) + doc_attribute(s.generate_docs, m.docstring) + "pub mod "@ + m.name.segments.last()
        + " {\n"@
}

/// The code of the module `m`: a module of the same name that holds, in
/// this order, the re-exports, the prelude, the type variables, the classes,
/// the functions, the properties and the submodules. A module at the top of
/// the forest silences the lints for all that it holds. What cannot be
/// written, because a name in it is no identifier, is left out: a member of
/// the module, or the module itself with all that it holds.
pub open spec fn module_code(m: ModuleView, s: Scene) -> Seq<char>
    decreases m, 2nat,
{
    if ident_accepted(m.name.segments.last()) {
        module_head(m, s) + members_text(m, s) + submodules_text(m, s) + "}\n"@
    } else {
        Seq::empty()
    }
}

/// The code of a module that holds one property and nothing else is the
/// head of the module, the code of that property and the closing brace: no
/// item of another kind is written. A module without a docstring gets no
/// attribute that documents it.
pub proof fn lemma_code_of_one_property(m: ModuleView, s: Scene)
    requires
        ident_accepted(m.name.segments.last()),
        m.prelude.len() == 0,
        m.imports.len() == 0,
        m.submodules.len() == 0,
        m.classes.len() == 0,
        m.type_vars.len() == 0,
        m.functions.len() == 0,
        m.properties.len() == 1,
    ensures
        module_code(m, s) == module_head(m, s) + (if s.generate_properties {
            property_part(m, s, 0)
        } else {
            Seq::empty()
        }) + "}\n"@,
        m.docstring is None ==> doc_attribute(s.generate_docs, m.docstring) == Seq::<char>::empty(),
{
    reveal_with_fuel(concat, 2);
    let properties = Seq::new(m.properties.len(), |i: int| property_part(m, s, i));
    assert(properties.drop_last() =~= Seq::<Seq<char>>::empty());
    assert(concat(properties) =~= property_part(m, s, 0));
    assert(imports_text(m, s) =~= Seq::<char>::empty());
    assert(type_vars_text(m, s) =~= Seq::<char>::empty());
    assert(classes_text(m, s) =~= Seq::<char>::empty());
    assert(functions_text(m, s) =~= Seq::<char>::empty());
    assert(prelude_text(m) =~= Seq::<char>::empty());
    assert(submodules_text(m, s) =~= Seq::<char>::empty());
    assert(members_text(m, s) =~= properties_text(m, s));
    assert(module_code(m, s) =~= module_head(m, s) + properties_text(m, s) + "}\n"@);
}

/// The key under which a module that imports `import` knows the type at
/// `path`.
fn key_through(path: &Path, import: &Import) -> (key: Path)
    requires
        import@.target.segments.len() > 0,
    ensures
        key@ == imported_key(path@, import@),
{
    let alias = import.target.name().clone();
    let text = chars_of(path.to_py().as_str());
    let prefix = import.origin.to_py().concat(".");
    let pre = chars_of(prefix.as_str());
    if crate::text::matches_at(&text, &pre, 0) {
        let rest = string_of_range(&text, pre.len(), text.len());
        assert(text@.subrange(pre.len() as int, text.len() as int) =~= text@.skip(
            pre.len() as int,
        ));
        let mut below = Path::from_py(rest.as_str());
        if below.segments.len() > 0 {
            let ghost before = below@.segments;
            below.segments.set(0, alias);
            assert(below@.segments =~= before.update(0, alias@));
            below.leading_colon = false;
            below
        } else {
            Path::from_ident(alias)
        }
    } else {
        Path::from_ident(alias)
    }
}

/// What is needed to write the code of a module.
pub struct Setting<'a> {
    pub cfg: &'a Config,
    pub top_level_modules: &'a Vec<Module>,
    pub all_types: &'a Vec<Path>,
    pub importable: &'a Vec<String>,
}

impl<'a> Setting<'a> {
    /// The scene that the setting describes.
    pub open spec fn scene(&self) -> Scene {
        scene(
            self.cfg@,
            views(self.top_level_modules@),
            views(self.all_types@),
            views(self.importable@),
        )
    }
}

/// Whether nothing in the module, or below it, lacks a name or a place, and
/// the module does not define more than can be counted: what makes it fit
/// for generating code.
pub open spec fn module_fit(m: ModuleView) -> bool
    decreases m,
{
    &&& m.name.segments.len() > 0
    &&& forall|i: int|
        0 <= i < m.imports.len() ==> (#[trigger] m.imports[i]).target.segments.len() > 0
            && m.imports[i].origin.segments.len() > 0
    &&& forall|i: int|
        0 <= i < m.type_vars.len() ==> (#[trigger] m.type_vars[i]).name.segments.len() > 0
    &&& forall|i: int| 0 <= i < m.classes.len() ==> class_placed(#[trigger] m.classes[i])
    &&& forall|i: int| 0 <= i < m.functions.len() ==> function_placed(#[trigger] m.functions[i])
    &&& forall|i: int| 0 <= i < m.properties.len() ==> property_placed(#[trigger] m.properties[i])
    &&& m.imports.len() + m.submodules.len() + m.classes.len() + m.functions.len()
        + m.type_vars.len() + m.properties.len() < usize::MAX
    &&& forall|i: int| 0 <= i < m.submodules.len() ==> module_fit(#[trigger] m.submodules[i])
}

impl Module {
    /// Whether the module is fit for generating code.
    pub open spec fn generatable(&self) -> bool {
        module_fit(self@)
    }

    /// Tests whether the module is fit for generating code.
    pub fn is_generatable(&self) -> (r: bool)
        ensures
            r == self.generatable(),
        decreases self,
    {
        proof {
            self.lemma_view();
        }
        let ghost m = self@;
        if self.name.len() == 0 {
            return false;
        }
        let total: u128 = self.imports.len() as u128 + self.submodules.len() as u128
            + self.classes.len() as u128 + self.functions.len() as u128
            + self.type_vars.len() as u128 + self.properties.len() as u128;
        if total >= usize::MAX as u128 {
            return false;
        }
        let mut i: usize = 0;
        while i < self.imports.len()
            invariant
                i <= self.imports.len(),
                m == self@,
                forall|j: int|
                    0 <= j < i ==> (#[trigger] m.imports[j]).target.segments.len() > 0
                        && m.imports[j].origin.segments.len() > 0,
            decreases self.imports.len() - i,
        {
            assert(m.imports[i as int] == self.imports[i as int]@);
            if self.imports[i].target.len() == 0 || self.imports[i].origin.len() == 0 {
                return false;
            }
            i += 1;
        }
        let mut i: usize = 0;
        while i < self.type_vars.len()
            invariant
                i <= self.type_vars.len(),
                m == self@,
                forall|j: int| 0 <= j < i ==> (#[trigger] m.type_vars[j]).name.segments.len() > 0,
            decreases self.type_vars.len() - i,
        {
            assert(m.type_vars[i as int] == self.type_vars[i as int]@);
            if self.type_vars[i].name.len() == 0 {
                return false;
            }
            i += 1;
        }
        let mut i: usize = 0;
        while i < self.classes.len()
            invariant
                i <= self.classes.len(),
                m == self@,
                forall|j: int| 0 <= j < i ==> class_placed(#[trigger] m.classes[j]),
            decreases self.classes.len() - i,
        {
            assert(m.classes[i as int] == self.classes[i as int]@);
            if !self.classes[i].is_reachable() {
                return false;
            }
            i += 1;
        }
        let mut i: usize = 0;
        while i < self.functions.len()
            invariant
                i <= self.functions.len(),
                m == self@,
                forall|j: int| 0 <= j < i ==> function_placed(#[trigger] m.functions[j]),
            decreases self.functions.len() - i,
        {
            assert(m.functions[i as int] == self.functions[i as int]@);
            if !self.functions[i].is_callable_by_path() {
                return false;
            }
            i += 1;
        }
        let mut i: usize = 0;
        while i < self.properties.len()
            invariant
                i <= self.properties.len(),
                m == self@,
                forall|j: int| 0 <= j < i ==> property_placed(#[trigger] m.properties[j]),
            decreases self.properties.len() - i,
        {
            assert(m.properties[i as int] == self.properties[i as int]@);
            if !self.properties[i].is_reachable() {
                return false;
            }
            i += 1;
        }
        let mut i: usize = 0;
        while i < self.submodules.len()
            invariant
                i <= self.submodules.len(),
                m == self@,
                m.submodules == views(self.submodules@),
                forall|j: int| 0 <= j < i ==> module_fit(#[trigger] m.submodules[j]),
            decreases self.submodules.len() - i,
        {
            assert(m.submodules[i as int] == self.submodules[i as int]@);
            if !self.submodules[i].is_generatable() {
                return false;
            }
            i += 1;
        }
        true
    }

    /// A module that is fit for generating code has a name for all that it
    /// defines.
    pub proof fn lemma_generatable_named(&self)
        requires
            self.generatable(),
        ensures
            all_named(self@),
    {
        lemma_fit_named(self@);
    }

    /// The types that code in the module can refer to, each with the
    /// reference to write for it.
    pub fn local_types(&self, all_types: &Vec<Path>) -> (out: LocalTypes)
        requires
            forall|i: int|
                0 <= i < self@.imports.len() ==> (#[trigger] self@.imports[i]).target.segments.len()
                    > 0,
        ensures
            out@ == local_types_of(self@, views(all_types@)),
    {
        let ghost m = self@;
        let ghost all = views(all_types@);
        let mut out = LocalTypes::new();
        let ghost base = local_entries(m, all, 0);
        let mut i: usize = 0;
        assert(out@ =~= base.take(0));
        while i < all_types.len()
            invariant
                i <= all_types.len(),
                m == self@,
                all == views(all_types@),
                base == local_entries(m, all, 0),
                out@ == base.take(i as int),
            decreases all_types.len() - i,
        {
            assert(all[i as int] == all_types@[i as int]@);
            out.insert(all_types[i].clone(), self.name.relative_to(&all_types[i], false));
            assert(out@ =~= base.take(i as int + 1));
            i += 1;
        }
        assert(base.take(all_types.len() as int) =~= base);
        let mut n: usize = 0;
        while n < self.imports.len()
            invariant
                n <= self.imports.len(),
                m == self@,
                all == views(all_types@),
                forall|i: int|
                    0 <= i < m.imports.len() ==> (#[trigger] m.imports[i]).target.segments.len()
                        > 0,
                out@ == local_entries(m, all, n as int),
            decreases self.imports.len() - n,
        {
            let import = &self.imports[n];
            assert(m.imports[n as int] == import@);
            let ghost before = out@;
            let mut k: usize = 0;
            assert(before + import_entries(m, all, import@, 0) =~= before);
            while k < all_types.len()
                invariant
                    k <= all_types.len(),
                    m == self@,
                    all == views(all_types@),
                    import@.target.segments.len() > 0,
                    out@ == before + import_entries(m, all, import@, k as int),
                decreases all_types.len() - k,
            {
                assert(all[k as int] == all_types@[k as int]@);
                let ghost so_far = import_entries(m, all, import@, k as int);
                if all_types[k].starts_with(&import.origin) {
                    let key = key_through(&all_types[k], import);
                    let reference = self.name.relative_to(&all_types[k], false);
                    out.insert(key, reference);
                    assert(out@ =~= before + so_far.push(
                        LocalTypeView { key: key@, reference: reference@ },
                    ));
                }
                k += 1;
            }
            n += 1;
        }
        out
    }

    /// Writes the code of the prelude.
    pub fn generate_prelude(&self) -> (s: String)
        requires
            self.generatable(),
        ensures
            s@ == prelude_text(self@),
    {
        proof {
            self.lemma_generatable_named();
            self.lemma_view();
        }
        let ghost m = self@;
        if self.prelude.len() == 0 {
            return String::new();
        }
        let mut items = String::new();
        let mut n: usize = 0;
        while n < self.prelude.len()
            invariant
                n <= self.prelude.len(),
                m == self@,
                items@ == export_items(exports(m, n as int)),
            decreases self.prelude.len() - n,
        {
            let id = &self.prelude[n];
            assert(m.prelude[n as int] == id@);
            match id.to_token() {
                Ok(t) => {
                    let ghost before = exports(m, n as int);
                    let ghost after = exports(m, n as int + 1);
                    assert(after == before.push(id@));
                    assert(after.drop_last() =~= before);
                    items.append(t.as_str());
                    items.append(", ");
                },
                Err(_) => {},
            }
            n += 1;
        }
        let names = self.names(true);
        assert(names.len() == views(names@).len());
        assert(views(names@).len() == crate::syntax::module_scope::defined_paths(m, true).len());
        let name = fresh_name("prelude", &names);
        let mut s = String::from_str("pub mod ");
        s.append(name.as_rs());
        s.append(" {\npub use super::{");
        s.append(items.as_str());
        s.append("};\n}\n");
        s
    }
}

/// A module that is fit for generating code has a name for all that it
/// defines.
pub proof fn lemma_fit_named(m: ModuleView)
    requires
        module_fit(m),
    ensures
        all_named(m),
    decreases m,
{
    let paths = crate::syntax::module_scope::defined_paths(m, true);
    assert forall|i: int| 0 <= i < m.submodules.len() implies all_named(
        #[trigger] m.submodules[i],
    ) by {
        lemma_fit_named(m.submodules[i]);
    }
    assert forall|i: int| 0 <= i < paths.len() implies (#[trigger] paths[i]).segments.len()
        > 0 by {
        let a = m.imports.len() as int;
        let b = a + m.submodules.len();
        let c = b + m.classes.len();
        let d = c + m.functions.len();
        let e = d + m.type_vars.len();
        if i < a {
            assert(paths[i] == m.imports[i].target);
        } else if i < b {
            assert(paths[i] == m.submodules[i - a].name);
            assert(module_fit(m.submodules[i - a]));
        } else if i < c {
            assert(paths[i] == m.classes[i - b].name);
            assert(class_placed(m.classes[i - b]));
        } else if i < d {
            assert(paths[i] == m.functions[i - c].name);
            assert(function_placed(m.functions[i - c]));
        } else if i < e {
            assert(paths[i] == m.type_vars[i - d].name);
        } else {
            assert(paths[i] == m.properties[i - e].name);
            assert(property_placed(m.properties[i - e]));
        }
    }
}

/// Whether a module of `top` defines something at `path`.
fn is_defined_in(top: &Vec<Module>, path: &Path) -> (r: bool)
    ensures
        r == defined_in(views(top@), path@),
{
    let mut i: usize = 0;
    while i < top.len()
        invariant
            i <= top.len(),
            forall|j: int| 0 <= j < i ==> !path_exists(#[trigger] views(top@)[j], path@, false),
        decreases top.len() - i,
    {
        assert(views(top@)[i as int] == top@[i as int]@);
        if top[i].check_path_exists_recursive(path, false) {
            return true;
        }
        i += 1;
    }
    false
}

/// The code that a function of a module contributes to the module.
fn implementation_of(code: FunctionImplementation) -> (s: String)
    ensures
        s@ == implementation_text(code@),
{
    match code {
        FunctionImplementation::Function(f) => f,
        FunctionImplementation::Method(m) => m.impl_fn,
    }
}

impl Module {
    /// The names of the functions.
    fn function_idents(&self) -> (names: Vec<Ident>)
        requires
            self.generatable(),
        ensures
            views(names@) == function_names(self@.functions),
            names.len() == self.functions.len(),
    {
        let mut names: Vec<Ident> = Vec::new();
        let mut i: usize = 0;
        assert(views(names@) =~= function_names(self@.functions).take(0));
        while i < self.functions.len()
            invariant
                i <= self.functions.len(),
                self.generatable(),
                names.len() == i,
                views(names@) == function_names(self@.functions).take(i as int),
            decreases self.functions.len() - i,
        {
            assert(self@.functions[i as int] == self.functions[i as int]@);
            assert(function_placed(self@.functions[i as int]));
            push_item(&mut names, self.functions[i].name.name().clone());
            assert(views(names@) =~= function_names(self@.functions).take(i as int + 1));
            i += 1;
        }
        assert(function_names(self@.functions).take(self.functions.len() as int)
            =~= function_names(self@.functions));
        names
    }

    /// Writes the code of the imports.
    fn write_imports(&self, st: &Setting) -> (out: String)
        requires
            self.generatable(),
        ensures
            out@ == imports_text(self@, st.scene()),
    {
        let mut out = String::new();
        if !st.cfg.generate_imports {
            return out;
        }
        let ghost m = self@;
        let ghost top = st.scene().top;
        let ghost parts = Seq::new(m.imports.len(), |i: int| import_part(m, top, i));
        let mut i: usize = 0;
        assert(parts.take(0) =~= Seq::<Seq<char>>::empty());
        while i < self.imports.len()
            invariant
                i <= self.imports.len(),
                self.generatable(),
                m == self@,
                top == st.scene().top,
                st.scene().generate_imports,
                parts == Seq::new(m.imports.len(), |i: int| import_part(m, top, i)),
                out@ == concat(parts.take(i as int)),
            decreases self.imports.len() - i,
        {
            let import = &self.imports[i];
            assert(m.imports[i as int] == import@);
            assert(parts.take(i as int + 1).drop_last() =~= parts.take(i as int));
            assert(out@ + Seq::<char>::empty() =~= out@);
            if is_defined_in(st.top_level_modules, &import.origin) {
                match import.generate() {
                    Ok(code) => {
                        out.append(code.as_str());
                    },
                    Err(_) => {},
                }
            }
            i += 1;
        }
        assert(parts.take(self.imports.len() as int) =~= parts);
        out
    }

    /// Writes the code of the type variables.
    fn write_type_vars(&self, st: &Setting) -> (out: String)
        requires
            self.generatable(),
        ensures
            out@ == type_vars_text(self@, st.scene()),
    {
        let mut out = String::new();
        if !st.cfg.generate_type_vars {
            return out;
        }
        let ghost m = self@;
        let ghost parts = Seq::new(m.type_vars.len(), |i: int| type_var_part(m, i));
        let mut i: usize = 0;
        assert(parts.take(0) =~= Seq::<Seq<char>>::empty());
        while i < self.type_vars.len()
            invariant
                i <= self.type_vars.len(),
                self.generatable(),
                m == self@,
                st.scene().generate_type_vars,
                parts == Seq::new(m.type_vars.len(), |i: int| type_var_part(m, i)),
                out@ == concat(parts.take(i as int)),
            decreases self.type_vars.len() - i,
        {
            let t = &self.type_vars[i];
            assert(m.type_vars[i as int] == t@);
            assert(parts.take(i as int + 1).drop_last() =~= parts.take(i as int));
            assert(out@ + Seq::<char>::empty() =~= out@);
            match t.generate() {
                Ok(code) => {
                    out.append(code.as_str());
                },
                Err(_) => {},
            }
            i += 1;
        }
        assert(parts.take(self.type_vars.len() as int) =~= parts);
        out
    }

    /// Writes the code of the classes.
    fn write_classes(&self, st: &Setting, local_types: &LocalTypes) -> (out: String)
        requires
            self.generatable(),
            local_types@ == local_types_of(self@, st.scene().all_types),
        ensures
            out@ == classes_text(self@, st.scene()),
    {
        let mut out = String::new();
        if !st.cfg.generate_classes {
            return out;
        }
        let ghost m = self@;
        let ghost sc = st.scene();
        let ghost parts = Seq::new(m.classes.len(), |i: int| class_part(m, sc, i));
        let mut i: usize = 0;
        assert(parts.take(0) =~= Seq::<Seq<char>>::empty());
        while i < self.classes.len()
            invariant
                i <= self.classes.len(),
                self.generatable(),
                m == self@,
                sc == st.scene(),
                sc.generate_classes,
                local_types@ == local_types_of(m, sc.all_types),
                parts == Seq::new(m.classes.len(), |i: int| class_part(m, sc, i)),
                out@ == concat(parts.take(i as int)),
            decreases self.classes.len() - i,
        {
            let c = &self.classes[i];
            assert(m.classes[i as int] == c@);
            assert(class_placed(m.classes[i as int]));
            assert(parts.take(i as int + 1).drop_last() =~= parts.take(i as int));
            let code = c.generate(st.cfg, local_types, st.importable);
            assert(code@ == class_part(m, sc, i as int));
            out.append(code.as_str());
            i += 1;
        }
        assert(parts.take(self.classes.len() as int) =~= parts);
        out
    }

    /// Writes the code of the functions.
    fn write_functions(&self, st: &Setting, local_types: &LocalTypes, scope: &Vec<Ident>) -> (out:
        String)
        requires
            self.generatable(),
            local_types@ == local_types_of(self@, st.scene().all_types),
            views(scope@) == function_names(self@.functions),
            scope.len() == self.functions.len(),
        ensures
            out@ == functions_text(self@, st.scene()),
    {
        let mut out = String::new();
        if !st.cfg.generate_functions {
            return out;
        }
        let ghost m = self@;
        let ghost sc = st.scene();
        let ghost parts = Seq::new(m.functions.len(), |i: int| function_part(m, sc, i));
        let mut i: usize = 0;
        assert(parts.take(0) =~= Seq::<Seq<char>>::empty());
        while i < self.functions.len()
            invariant
                i <= self.functions.len(),
                self.generatable(),
                m == self@,
                sc == st.scene(),
                local_types@ == local_types_of(m, sc.all_types),
                views(scope@) == function_names(m.functions),
                scope.len() == self.functions.len(),
                sc.generate_functions,
                parts == Seq::new(m.functions.len(), |i: int| function_part(m, sc, i)),
                out@ == concat(parts.take(i as int)),
            decreases self.functions.len() - i,
        {
            let f = &self.functions[i];
            assert(m.functions[i as int] == f@);
            assert(function_placed(m.functions[i as int]));
            assert(parts.take(i as int + 1).drop_last() =~= parts.take(i as int));
            assert(out@ + Seq::<char>::empty() =~= out@);
            match f.generate(st.cfg, scope, local_types, st.importable) {
                Ok(code) => {
                    out.append(implementation_of(code).as_str());
                },
                Err(_) => {},
            }
            i += 1;
        }
        assert(parts.take(self.functions.len() as int) =~= parts);
        out
    }

    /// Writes the code of the properties.
    fn write_properties(&self, st: &Setting, local_types: &LocalTypes, scope: &Vec<Ident>) -> (out:
        String)
        requires
            self.generatable(),
            local_types@ == local_types_of(self@, st.scene().all_types),
            views(scope@) == function_names(self@.functions),
        ensures
            out@ == properties_text(self@, st.scene()),
    {
        let mut out = String::new();
        if !st.cfg.generate_properties {
            return out;
        }
        let ghost m = self@;
        let ghost sc = st.scene();
        let ghost parts = Seq::new(m.properties.len(), |i: int| property_part(m, sc, i));
        let mut i: usize = 0;
        assert(parts.take(0) =~= Seq::<Seq<char>>::empty());
        while i < self.properties.len()
            invariant
                i <= self.properties.len(),
                self.generatable(),
                m == self@,
                sc == st.scene(),
                local_types@ == local_types_of(m, sc.all_types),
                views(scope@) == function_names(m.functions),
                sc.generate_properties,
                parts == Seq::new(m.properties.len(), |i: int| property_part(m, sc, i)),
                out@ == concat(parts.take(i as int)),
            decreases self.properties.len() - i,
        {
            let p = &self.properties[i];
            assert(m.properties[i as int] == p@);
            assert(property_placed(m.properties[i as int]));
            assert(parts.take(i as int + 1).drop_last() =~= parts.take(i as int));
            assert(out@ + Seq::<char>::empty() =~= out@);
            match p.generate(st.cfg, scope, local_types, st.importable) {
                Ok(code) => {
                    out.append(implementation_of(code).as_str());
                },
                Err(_) => {},
            }
            i += 1;
        }
        assert(parts.take(self.properties.len() as int) =~= parts);
        out
    }

    /// Writes the code of what the module holds itself.
    fn write_members(&self, st: &Setting) -> (out: String)
        requires
            self.generatable(),
        ensures
            out@ == members_text(self@, st.scene()),
    {
        let mut out = self.write_imports(st);
        if st.cfg.generate_preludes {
            out.append(self.generate_prelude().as_str());
        } else {
            assert(out@ + Seq::<char>::empty() =~= out@);
        }
        out.append(self.write_type_vars(st).as_str());
        let local_types = self.local_types(st.all_types);
        out.append(self.write_classes(st, &local_types).as_str());
        let scope = self.function_idents();
        out.append(self.write_functions(st, &local_types, &scope).as_str());
        out.append(self.write_properties(st, &local_types, &scope).as_str());
        out
    }

    /// Writes the code of the submodules.
    fn write_submodules(&self, st: &Setting) -> (out: String)
        requires
            self.generatable(),
        ensures
            out@ == submodules_text(self@, st.scene()),
        decreases self, 1nat,
    {
        proof {
            self.lemma_view();
        }
        let mut out = String::new();
        if !st.cfg.traverse_submodules {
            return out;
        }
        let ghost m = self@;
        let ghost sc = st.scene();
        let ghost parts = submodule_parts(m, sc);
        let mut i: usize = 0;
        assert(parts.take(0) =~= Seq::<Seq<char>>::empty());
        while i < self.submodules.len()
            invariant
                i <= self.submodules.len(),
                self.generatable(),
                m == self@,
                m.submodules == views(self.submodules@),
                sc == st.scene(),
                sc.traverse_submodules,
                parts == submodule_parts(m, sc),
                out@ == concat(parts.take(i as int)),
            decreases self.submodules.len() - i,
        {
            let sub = &self.submodules[i];
            assert(m.submodules[i as int] == sub@);
            assert(module_fit(m.submodules[i as int]));
            assert(parts.take(i as int + 1).drop_last() =~= parts.take(i as int));
            out.append(sub.generate_in(st).as_str());
            i += 1;
        }
        assert(parts.take(self.submodules.len() as int) =~= parts);
        out
    }

    /// Writes what stands before the code of what the module holds.
    fn write_head(&self, st: &Setting, name: &str) -> (out: String)
        ensures
            out@ == (if st.scene().top.contains(self@) {
                allow_attribute()
            } else {
                Seq::empty()
            }) + doc_attribute(st.scene().generate_docs, self@.docstring) + "pub mod "@ + name@
                + " {\n"@,
    {
        let mut out = if holds(st.top_level_modules, self) {
            String::from_str(
                "#[allow(clippy::all, clippy::nursery, clippy::pedantic, non_camel_case_types, non_snake_case, non_upper_case_globals, unused)]\n",
            )
        } else {
            String::new()
        };
        out.append(doc_attribute_of(st.cfg, &self.docstring).as_str());
        out.append("pub mod ");
        out.append(name);
        out.append(" {\n");
        out
    }

    /// Writes the code of the module in the given setting.
    pub fn generate_in(&self, st: &Setting) -> (s: String)
        requires
            self.generatable(),
        ensures
            s@ == module_code(self@, st.scene()),
        decreases self, 2nat,
    {
        let name = match self.name.name().to_token() {
            Ok(t) => t,
            Err(_) => {
                return String::new();
            },
        };
        let members = self.write_members(st);
        let submodules = self.write_submodules(st);
        let mut out = self.write_head(st, name.as_str());
        out.append(members.as_str());
        out.append(submodules.as_str());
        out.append("}\n");
        out
    }

    /// Writes the code of the module and of all below it, given the modules
    /// at the top of the forest, the paths of all types of the forest and
    /// the modules that can be imported. What cannot be written, because a
    /// name in it is no identifier, is left out.
    pub fn generate(
        &self,
        cfg: &Config,
        top_level_modules: &Vec<Module>,
        all_types: &Vec<Path>,
        importable: &Vec<String>,
    ) -> (s: String)
        requires
            self.generatable(),
        ensures
            s@ == module_code(
                self@,
                scene(cfg@, views(top_level_modules@), views(all_types@), views(importable@)),
            ),
    {
        let st = Setting { cfg, top_level_modules, all_types, importable };
        self.generate_in(&st)
    }
}

} // verus!
