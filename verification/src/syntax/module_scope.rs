//! What a module defines, by name and by path.

use crate::ident::{same_ident, Ident};
use crate::path::{same_path, Path, PathView};
use crate::syntax::module::{Module, ModuleView};
use crate::text::{push_item, views};
use vstd::prelude::*;

verus! {

/// The paths at which a module defines something itself: its submodules,
/// classes, functions, type variables and properties, and, where `imports`
/// asks for them, the targets of its imports.
pub open spec fn defined_paths(m: ModuleView, imports: bool) -> Seq<PathView> {
    (if imports {
        Seq::new(m.imports.len(), |i: int| m.imports[i].target)
    } else {
        Seq::empty()
    }) + Seq::new(m.submodules.len(), |i: int| m.submodules[i].name) + Seq::new(
        m.classes.len(),
        |i: int| m.classes[i].name,
    ) + Seq::new(m.functions.len(), |i: int| m.functions[i].name) + Seq::new(
        m.type_vars.len(),
        |i: int| m.type_vars[i].name,
    ) + Seq::new(m.properties.len(), |i: int| m.properties[i].name)
}

/// Whether all that the module and the modules below it define has a name.
pub open spec fn all_named(m: ModuleView) -> bool
    decreases m,
{
    &&& m.name.segments.len() > 0
    &&& forall|i: int|
        0 <= i < defined_paths(m, true).len() ==> (#[trigger] defined_paths(
            m,
            true,
        )[i]).segments.len() > 0
    &&& forall|i: int| 0 <= i < m.submodules.len() ==> all_named(#[trigger] m.submodules[i])
}

/// The names that a module defines.
pub open spec fn defined_names(m: ModuleView, imports: bool) -> Seq<Seq<char>> {
    Seq::new(defined_paths(m, imports).len(), |i: int| defined_paths(m, imports)[i].segments.last())
}

/// Whether a path of `paths` is `path`.
pub open spec fn holds_path(paths: Seq<PathView>, path: PathView) -> bool {
    exists|i: int| 0 <= i < paths.len() && same_path(#[trigger] paths[i], path)
}

/// Whether a name of `names` is `name`.
pub open spec fn holds_name(names: Seq<Seq<char>>, name: Seq<char>) -> bool {
    exists|i: int| 0 <= i < names.len() && same_ident(#[trigger] names[i], name)
}

/// Whether the module, or a module below it, defines something at `path`.
pub open spec fn path_exists(m: ModuleView, path: PathView, imports: bool) -> bool
    decreases m,
{
    holds_path(defined_paths(m, imports), path) || exists|i: int|
        0 <= i < m.submodules.len() && path_exists(#[trigger] m.submodules[i], path, imports)
}

/// Whether the module itself defines something called `name`.
pub open spec fn ident_exists(m: ModuleView, name: Seq<char>, imports: bool) -> bool {
    holds_name(defined_names(m, imports), name)
}

impl Module {
    /// The paths at which the module defines something itself.
    pub fn paths(&self, consider_imports: bool) -> (out: Vec<Path>)
        ensures
            views(out@) == defined_paths(self@, consider_imports),
    {
        proof {
            self.lemma_view();
        }
        let mut out: Vec<Path> = Vec::new();
        let ghost m = self@;
        let ghost a = if consider_imports {
            Seq::new(m.imports.len(), |i: int| m.imports[i].target)
        } else {
            Seq::empty()
        };
        if consider_imports {
            let mut i: usize = 0;
            assert(views(out@) =~= a.take(0));
            while i < self.imports.len()
                invariant
                    i <= self.imports.len(),
                    m == self@,
                    a == Seq::new(m.imports.len(), |i: int| m.imports[i].target),
                    views(out@) == a.take(i as int),
                decreases self.imports.len() - i,
            {
                push_item(&mut out, self.imports[i].target.clone());
                assert(views(out@) =~= a.take(i as int + 1));
                i += 1;
            }
            assert(a.take(self.imports.len() as int) =~= a);
        } else {
            assert(views(out@) =~= a);
        }
        let ghost b = Seq::new(m.submodules.len(), |i: int| m.submodules[i].name);
        let mut i: usize = 0;
        assert(views(out@) =~= a + b.take(0));
        while i < self.submodules.len()
            invariant
                i <= self.submodules.len(),
                m == self@,
                m.submodules == views(self.submodules@),
                b == Seq::new(m.submodules.len(), |i: int| m.submodules[i].name),
                views(out@) == a + b.take(i as int),
            decreases self.submodules.len() - i,
        {
            proof {
                self.submodules[i as int].lemma_view();
            }
            push_item(&mut out, self.submodules[i].name.clone());
            assert(views(out@) =~= a + b.take(i as int + 1));
            i += 1;
        }
        assert(b.take(self.submodules.len() as int) =~= b);
        let ghost c = Seq::new(m.classes.len(), |i: int| m.classes[i].name);
        let mut i: usize = 0;
        assert(views(out@) =~= a + b + c.take(0));
        while i < self.classes.len()
            invariant
                i <= self.classes.len(),
                m == self@,
                c == Seq::new(m.classes.len(), |i: int| m.classes[i].name),
                views(out@) == a + b + c.take(i as int),
            decreases self.classes.len() - i,
        {
            push_item(&mut out, self.classes[i].name.clone());
            assert(views(out@) =~= a + b + c.take(i as int + 1));
            i += 1;
        }
        assert(c.take(self.classes.len() as int) =~= c);
        let ghost d = Seq::new(m.functions.len(), |i: int| m.functions[i].name);
        let mut i: usize = 0;
        assert(views(out@) =~= a + b + c + d.take(0));
        while i < self.functions.len()
            invariant
                i <= self.functions.len(),
                m == self@,
                d == Seq::new(m.functions.len(), |i: int| m.functions[i].name),
                views(out@) == a + b + c + d.take(i as int),
            decreases self.functions.len() - i,
        {
            push_item(&mut out, self.functions[i].name.clone());
            assert(views(out@) =~= a + b + c + d.take(i as int + 1));
            i += 1;
        }
        assert(d.take(self.functions.len() as int) =~= d);
        let ghost e = Seq::new(m.type_vars.len(), |i: int| m.type_vars[i].name);
        let mut i: usize = 0;
        assert(views(out@) =~= a + b + c + d + e.take(0));
        while i < self.type_vars.len()
            invariant
                i <= self.type_vars.len(),
                m == self@,
                e == Seq::new(m.type_vars.len(), |i: int| m.type_vars[i].name),
                views(out@) == a + b + c + d + e.take(i as int),
            decreases self.type_vars.len() - i,
        {
            push_item(&mut out, self.type_vars[i].name.clone());
            assert(views(out@) =~= a + b + c + d + e.take(i as int + 1));
            i += 1;
        }
        assert(e.take(self.type_vars.len() as int) =~= e);
        let ghost f = Seq::new(m.properties.len(), |i: int| m.properties[i].name);
        let mut i: usize = 0;
        assert(views(out@) =~= a + b + c + d + e + f.take(0));
        while i < self.properties.len()
            invariant
                i <= self.properties.len(),
                m == self@,
                f == Seq::new(m.properties.len(), |i: int| m.properties[i].name),
                views(out@) == a + b + c + d + e + f.take(i as int),
            decreases self.properties.len() - i,
        {
            push_item(&mut out, self.properties[i].name.clone());
            assert(views(out@) =~= a + b + c + d + e + f.take(i as int + 1));
            i += 1;
        }
        assert(f.take(self.properties.len() as int) =~= f);
        out
    }

    /// The names that the module defines.
    pub fn names(&self, consider_imports: bool) -> (out: Vec<Ident>)
        requires
            all_named(self@),
        ensures
            views(out@) == defined_names(self@, consider_imports),
    {
        let paths = self.paths(consider_imports);
        let ghost goal = defined_names(self@, consider_imports);
        let mut out: Vec<Ident> = Vec::new();
        let mut i: usize = 0;
        assert(views(out@) =~= goal.take(0));
        while i < paths.len()
            invariant
                i <= paths.len(),
                all_named(self@),
                views(paths@) == defined_paths(self@, consider_imports),
                goal == defined_names(self@, consider_imports),
                views(out@) == goal.take(i as int),
            decreases paths.len() - i,
        {
            assert(views(paths@)[i as int] == paths@[i as int]@);
            assert(paths@[i as int]@.segments.len() > 0) by {
                lemma_named_without_imports(self@, consider_imports, i as int);
            }
            push_item(&mut out, paths[i].name().clone());
            assert(views(out@) =~= goal.take(i as int + 1));
            i += 1;
        }
        assert(goal.take(paths.len() as int) =~= goal);
        out
    }

    /// Whether the module, or a module below it, defines something at
    /// `path`.
    pub fn check_path_exists_recursive(&self, path: &Path, consider_imports: bool) -> (r: bool)
        ensures
            r == path_exists(self@, path@, consider_imports),
        decreases self,
    {
        proof {
            self.lemma_view();
        }
        let paths = self.paths(consider_imports);
        let mut i: usize = 0;
        while i < paths.len()
            invariant
                i <= paths.len(),
                views(paths@) == defined_paths(self@, consider_imports),
                forall|j: int|
                    0 <= j < i ==> !same_path(
                        #[trigger] defined_paths(self@, consider_imports)[j],
                        path@,
                    ),
            decreases paths.len() - i,
        {
            assert(views(paths@)[i as int] == paths@[i as int]@);
            if paths[i].same(path) {
                return true;
            }
            i += 1;
        }
        let mut k: usize = 0;
        while k < self.submodules.len()
            invariant
                k <= self.submodules.len(),
                self@.submodules == views(self.submodules@),
                !holds_path(defined_paths(self@, consider_imports), path@),
                forall|j: int|
                    0 <= j < k ==> !path_exists(
                        #[trigger] self@.submodules[j],
                        path@,
                        consider_imports,
                    ),
            decreases self.submodules.len() - k,
        {
            assert(self@.submodules[k as int] == self.submodules[k as int]@);
            if self.submodules[k].check_path_exists_recursive(path, consider_imports) {
                return true;
            }
            k += 1;
        }
        false
    }

    /// Whether the module itself defines something called `ident`.
    pub fn check_ident_exists_immediate(&self, ident: &Ident, consider_imports: bool) -> (r: bool)
        requires
            all_named(self@),
        ensures
            r == ident_exists(self@, ident@, consider_imports),
    {
        let names = self.names(consider_imports);
        let mut i: usize = 0;
        while i < names.len()
            invariant
                i <= names.len(),
                views(names@) == defined_names(self@, consider_imports),
                forall|j: int|
                    0 <= j < i ==> !same_ident(
                        #[trigger] defined_names(self@, consider_imports)[j],
                        ident@,
                    ),
            decreases names.len() - i,
        {
            assert(views(names@)[i as int] == names@[i as int]@);
            if names[i].same(ident) {
                return true;
            }
            i += 1;
        }
        false
    }
}

/// What a module defines without its imports, it defines with them.
pub proof fn lemma_named_without_imports(m: ModuleView, imports: bool, i: int)
    requires
        all_named(m),
        0 <= i < defined_paths(m, imports).len(),
    ensures
        defined_paths(m, imports)[i].segments.len() > 0,
{
    if imports {
    } else {
        let k = m.imports.len() as int;
        assert(defined_paths(m, true)[i + k] == defined_paths(m, false)[i]);
    }
}

} // verus!
