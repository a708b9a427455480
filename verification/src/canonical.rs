//! The canonical form of a forest of modules: every requested module stands
//! below its ancestors, and no two siblings bear one name.

use crate::model::{union_unique, unique, Model};
use crate::path::{Path, PathView};
use crate::syntax::module::{Module, ModuleView};
use crate::text::{push_item, views};
use vstd::prelude::*;

verus! {

/// The position of the first module of `list` that is called `name`, or -1
/// where there is none.
pub open spec fn position(list: Seq<ModuleView>, name: PathView) -> int
    decreases list.len(),
{
    if list.len() == 0 {
        -1
    } else {
        let before = position(list.drop_last(), name);
        if before >= 0 {
            before
        } else if list.last().name == name {
            list.len() - 1
        } else {
            -1
        }
    }
}

/// The docstring of two modules of one name taken together: that of the
/// first, or that of the second where the first has none.
pub open spec fn either_docstring(a: Option<Seq<char>>, b: Option<Seq<char>>) -> Option<
    Seq<char>,
> {
    match a {
        Some(d) => Some(d),
        None => b,
    }
}

/// What two modules of one name hold together. Each list holds what the
/// first module lists and then what only the second lists, each item once;
/// the submodules of the second are taken into those of the first. The
/// docstring is the first that there is, so that a placeholder for an
/// ancestor takes nothing from the module that it stands for, and the whole
/// is a package where either is.
pub open spec fn merged(a: ModuleView, b: ModuleView) -> ModuleView
    decreases b, 0nat,
{
    ModuleView {
        name: a.name,
        prelude: unique(a.prelude + b.prelude),
        imports: unique(a.imports + b.imports),
        submodules: absorbed_all(a.submodules, b.submodules),
        classes: unique(a.classes + b.classes),
        type_vars: unique(a.type_vars + b.type_vars),
        functions: unique(a.functions + b.functions),
        properties: unique(a.properties + b.properties),
        docstring: either_docstring(a.docstring, b.docstring),
        is_package: a.is_package || b.is_package,
    }
}

/// The list `list` after it has taken in the module `m`: merged into the
/// first module of its name, or added at the end where none bears its name.
pub open spec fn absorbed(list: Seq<ModuleView>, m: ModuleView) -> Seq<ModuleView>
    decreases m, 1nat,
{
    let j = position(list, m.name);
    if 0 <= j < list.len() {
        list.update(j, merged(list[j], m))
    } else {
        list.push(m)
    }
}

/// The list `list` after it has taken in the modules `more`, one after the
/// other.
pub open spec fn absorbed_all(list: Seq<ModuleView>, more: Seq<ModuleView>) -> Seq<ModuleView>
    decreases more, 2nat,
{
    if more.len() == 0 {
        list
    } else {
        absorbed(absorbed_all(list, more.drop_last()), more.last())
    }
}

/// The module `m` below `depth` of its ancestors, each an empty package
/// that holds the next.
pub open spec fn wrapped(m: ModuleView, depth: nat) -> ModuleView
    decreases depth,
{
    if depth == 0 {
        m
    } else {
        let inner = wrapped(m, (depth - 1) as nat);
        ModuleView {
            name: PathView {
                leading_colon: false,
                segments: m.name.segments.take(m.name.segments.len() - depth),
            },
            prelude: Seq::empty(),
            imports: Seq::empty(),
            submodules: seq![inner],
            classes: Seq::empty(),
            type_vars: Seq::empty(),
            functions: Seq::empty(),
            properties: Seq::empty(),
            docstring: None,
            is_package: true,
        }
    }
}

/// The module `m` below all of its ancestors, so that it can stand at the
/// top of the forest.
pub open spec fn embedded(m: ModuleView) -> ModuleView {
    if m.name.segments.len() > 1 {
        wrapped(m, (m.name.segments.len() - 1) as nat)
    } else {
        m
    }
}

/// The canonical forest of the first `n` of the requested modules.
pub open spec fn canonical_forest(modules: Seq<ModuleView>, n: int) -> Seq<ModuleView>
    decreases n,
{
    if n <= 0 {
        Seq::empty()
    } else {
        absorbed(canonical_forest(modules, n - 1), embedded(modules[n - 1]))
    }
}

/// Finds the first module of `list` that is called `name`.
pub fn find_module(list: &Vec<Module>, name: &Path) -> (r: Option<usize>)
    ensures
        match r {
            Some(j) => j < list.len() && position(views(list@), name@) == j,
            None => position(views(list@), name@) == -1,
        },
{
    let ghost all = views(list@);
    let mut i: usize = 0;
    assert(all.take(0) =~= Seq::<ModuleView>::empty());
    while i < list.len()
        invariant
            i <= list.len(),
            all == views(list@),
            position(all.take(i as int), name@) == -1,
        decreases list.len() - i,
    {
        assert(all.take(i as int + 1).drop_last() =~= all.take(i as int));
        assert(all.take(i as int + 1).last() == list@[i as int]@);
        proof {
            list@[i as int].lemma_view();
        }
        if list[i].name.equals(name) {
            proof {
                lemma_position_extends(all, i as int + 1, name@);
            }
            return Some(i);
        }
        i += 1;
    }
    assert(all.take(list.len() as int) =~= all);
    None
}

/// A module that is found among the first `n` of a list is found at the same
/// position in the whole list.
pub proof fn lemma_position_extends(list: Seq<ModuleView>, n: int, name: PathView)
    requires
        0 <= n <= list.len(),
        position(list.take(n), name) >= 0,
    ensures
        position(list, name) == position(list.take(n), name),
    decreases list.len() - n,
{
    if n < list.len() {
        assert(list.take(n + 1).drop_last() =~= list.take(n));
        lemma_position_extends(list, n + 1, name);
    } else {
        assert(list.take(n) =~= list);
    }
}

/// Takes the modules `more` into the list `list`, one after the other.
pub fn absorb_all(list: Vec<Module>, more: &Vec<Module>) -> (out: Vec<Module>)
    ensures
        views(out@) == absorbed_all(views(list@), views(more@)),
    decreases more, 2nat,
{
    let mut out = list;
    let ghost start = views(out@);
    let ghost all = views(more@);
    let mut i: usize = 0;
    assert(all.take(0) =~= Seq::<ModuleView>::empty());
    while i < more.len()
        invariant
            i <= more.len(),
            all == views(more@),
            views(out@) == absorbed_all(start, all.take(i as int)),
        decreases more.len() - i,
    {
        assert(all.take(i as int + 1).drop_last() =~= all.take(i as int));
        assert(all.take(i as int + 1).last() == more@[i as int]@);
        out = absorb(out, &more[i]);
        i += 1;
    }
    assert(all.take(more.len() as int) =~= all);
    out
}

/// Takes the module `m` into the list `list`.
pub fn absorb(list: Vec<Module>, m: &Module) -> (out: Vec<Module>)
    ensures
        views(out@) == absorbed(views(list@), m@),
    decreases m, 1nat,
{
    let mut out = list;
    proof {
        m.lemma_view();
    }
    match find_module(&out, &m.name) {
        Some(j) => {
            let ghost before = views(out@);
            let merged_module = merge(&out[j], m);
            out.set(j, merged_module);
            assert(views(out@) =~= before.update(j as int, merged_module@));
            out
        },
        None => {
            push_item(&mut out, m.duplicate());
            out
        },
    }
}

/// What the modules `a` and `b` hold together.
pub fn merge(a: &Module, b: &Module) -> (out: Module)
    ensures
        out@ == merged(a@, b@),
    decreases b, 0nat,
{
    proof {
        a.lemma_view();
        b.lemma_view();
    }
    let prelude = union_unique(&a.prelude, &b.prelude);
    let imports = union_unique(&a.imports, &b.imports);
    let classes = union_unique(&a.classes, &b.classes);
    let type_vars = union_unique(&a.type_vars, &b.type_vars);
    let functions = union_unique(&a.functions, &b.functions);
    let properties = union_unique(&a.properties, &b.properties);
    let own = crate::model::copy_list(&a.submodules);
    let submodules = absorb_all(own, &b.submodules);
    let out = Module {
        name: a.name.copy(),
        prelude,
        imports,
        submodules,
        classes,
        type_vars,
        functions,
        properties,
        docstring: match &a.docstring {
            Some(_) => crate::model::copy_opt(&a.docstring),
            None => crate::model::copy_opt(&b.docstring),
        },
        is_package: a.is_package || b.is_package,
    };
    proof {
        out.lemma_view();
    }
    out
}

/// Puts the module `m` below `depth` of its ancestors.
pub fn wrap(m: Module, depth: usize) -> (out: Module)
    requires
        depth <= m@.name.segments.len(),
    ensures
        out@ == wrapped(m@, depth as nat),
{
    proof {
        m.lemma_view();
    }
    let ghost inner = m@;
    let name = m.name.clone();
    let mut out = m;
    let mut d: usize = 0;
    while d < depth
        invariant
            d <= depth <= name@.segments.len(),
            name@ == inner.name,
            out@ == wrapped(inner, d as nat),
        decreases depth - d,
    {
        d += 1;
        let mut parent = Module::empty(name.prefix(name.len() - d));
        let ghost before = out@;
        parent.submodules.push(out);
        proof {
            parent.lemma_view();
            assert(views(parent.submodules@) =~= seq![before]);
        }
        out = parent;
    }
    out
}

/// Puts the module `m` below all of its ancestors.
pub fn embed(m: Module) -> (out: Module)
    ensures
        out@ == embedded(m@),
{
    proof {
        m.lemma_view();
    }
    if m.name.len() > 1 {
        let depth = m.name.len() - 1;
        wrap(m, depth)
    } else {
        m
    }
}

/// Brings the requested modules into the canonical forest.
pub fn canonical_modules(modules: &Vec<Module>) -> (out: Vec<Module>)
    ensures
        views(out@) == canonical_forest(views(modules@), modules.len() as int),
{
    let mut out: Vec<Module> = Vec::new();
    let mut i: usize = 0;
    assert(views(out@) =~= Seq::<ModuleView>::empty());
    while i < modules.len()
        invariant
            i <= modules.len(),
            views(out@) == canonical_forest(views(modules@), i as int),
        decreases modules.len() - i,
    {
        let m = embed(modules[i].duplicate());
        out = absorb(out, &m);
        i += 1;
    }
    out
}

} // verus!

verus! {

/// Whether no two modules of the list bear one name.
pub open spec fn distinct(list: Seq<ModuleView>) -> bool {
    forall|i: int, j: int|
        0 <= i < j < list.len() ==> (#[trigger] list[i]).name != (#[trigger] list[j]).name
}

/// Whether, in `m` and everywhere below it, no two submodules of one module
/// bear one name.
pub open spec fn well_formed(m: ModuleView) -> bool
    decreases m,
{
    &&& distinct(m.submodules)
    &&& forall|i: int| 0 <= i < m.submodules.len() ==> well_formed(#[trigger] m.submodules[i])
}

/// Whether each module of the list is well formed.
pub open spec fn each_well_formed(list: Seq<ModuleView>) -> bool {
    forall|i: int| 0 <= i < list.len() ==> well_formed(#[trigger] list[i])
}

/// Where a module is found by its name, it stands there, and no module
/// before it bears the name; where none is found, none bears the name.
pub proof fn lemma_position(list: Seq<ModuleView>, name: PathView)
    ensures
        -1 <= position(list, name) < list.len(),
        position(list, name) >= 0 ==> list[position(list, name)].name == name,
        forall|i: int|
            0 <= i < list.len() && (i < position(list, name) || position(list, name) == -1) ==> (
            #[trigger] list[i]).name != name,
    decreases list.len(),
{
    if list.len() > 0 {
        lemma_position(list.drop_last(), name);
        assert forall|i: int|
            0 <= i < list.len() && (i < position(list, name) || position(list, name)
                == -1) implies (#[trigger] list[i]).name != name by {
            if i < list.len() - 1 {
                assert(list.drop_last()[i] == list[i]);
            }
        }
    }
}

/// The first module of a name is found where it stands.
pub proof fn lemma_position_is(list: Seq<ModuleView>, name: PathView, p: int)
    requires
        0 <= p < list.len(),
        list[p].name == name,
        forall|i: int| 0 <= i < p ==> (#[trigger] list[i]).name != name,
    ensures
        position(list, name) == p,
{
    lemma_position(list, name);
    let q = position(list, name);
    if q == -1 {
        assert(list[p].name != name);
    } else if q < p {
        assert(list[q].name != name);
    } else if p < q {
        assert(list[p].name != name);
    }
}

/// A name that no module bears is found nowhere.
pub proof fn lemma_position_none(list: Seq<ModuleView>, name: PathView)
    requires
        forall|i: int| 0 <= i < list.len() ==> (#[trigger] list[i]).name != name,
    ensures
        position(list, name) == -1,
{
    lemma_position(list, name);
    let q = position(list, name);
    if q >= 0 {
        assert(list[q].name != name);
    }
}

/// What a list is after it has taken in a module: the module was merged into
/// the first of its name, all else unchanged, or it was added at the end.
pub proof fn lemma_absorbed(list: Seq<ModuleView>, m: ModuleView)
    ensures
        position(list, m.name) >= 0 ==> absorbed(list, m) == list.update(
            position(list, m.name),
            merged(list[position(list, m.name)], m),
        ) && absorbed(list, m).len() == list.len(),
        position(list, m.name) == -1 ==> absorbed(list, m) == list.push(m),
        forall|i: int|
            0 <= i < list.len() ==> (#[trigger] absorbed(list, m)[i]).name == list[i].name,
        absorbed(list, m).len() >= list.len(),
{
    lemma_position(list, m.name);
}

/// Where a name is found after a list has taken in a module.
pub proof fn lemma_position_absorbed(list: Seq<ModuleView>, m: ModuleView, name: PathView)
    ensures
        position(absorbed(list, m), name) == if position(list, name) >= 0 {
            position(list, name)
        } else if m.name == name {
            list.len() as int
        } else {
            -1
        },
{
    lemma_position(list, name);
    lemma_position(list, m.name);
    lemma_absorbed(list, m);
    let r = absorbed(list, m);
    let p = position(list, name);
    if p >= 0 {
        assert(r[p].name == list[p].name);
        assert forall|i: int| 0 <= i < p implies (#[trigger] r[i]).name != name by {
            assert(r[i].name == list[i].name);
        }
        lemma_position_is(r, name, p);
    } else if m.name == name {
        assert(r == list.push(m));
        assert forall|i: int| 0 <= i < list.len() implies (#[trigger] r[i]).name != name by {
            assert(r[i].name == list[i].name);
        }
        lemma_position_is(r, name, list.len() as int);
    } else {
        assert forall|i: int| 0 <= i < r.len() implies (#[trigger] r[i]).name != name by {
            if i < list.len() {
                assert(r[i].name == list[i].name);
            } else {
                assert(position(list, m.name) == -1);
                assert(r[i] == m);
            }
        }
        lemma_position_none(r, name);
    }
}

/// Two modules of different names, of which the first is merged into a
/// module of the list, can be taken in in either order.
pub proof fn lemma_absorbed_commutes(list: Seq<ModuleView>, u: ModuleView, v: ModuleView)
    requires
        u.name != v.name,
        position(list, u.name) >= 0,
    ensures
        absorbed(absorbed(list, u), v) == absorbed(absorbed(list, v), u),
{
    let pu = position(list, u.name);
    let pv = position(list, v.name);
    lemma_position(list, u.name);
    lemma_position(list, v.name);
    lemma_absorbed(list, u);
    lemma_absorbed(list, v);
    lemma_position_absorbed(list, u, v.name);
    lemma_position_absorbed(list, v, u.name);
    let lu = absorbed(list, u);
    let lv = absorbed(list, v);
    lemma_absorbed(lu, v);
    lemma_absorbed(lv, u);
    if pv >= 0 {
        assert(pu != pv);
        assert(lu[pv] == list[pv]);
        assert(lv[pu] == list[pu]);
        assert(absorbed(lu, v) =~= absorbed(lv, u));
    } else {
        assert(lv[pu] == list[pu]);
        assert(absorbed(lu, v) =~= absorbed(lv, u));
    }
}

/// What a list is after it has taken in a list that ends with `m`.
pub proof fn lemma_absorbed_all_push(list: Seq<ModuleView>, more: Seq<ModuleView>, m: ModuleView)
    ensures
        absorbed_all(list, more.push(m)) == absorbed(absorbed_all(list, more), m),
{
    assert(more.push(m).drop_last() =~= more);
}

/// A list that has taken in modules still holds, at their places, modules
/// of the names that it held, and it holds a module of each name that it
/// took in.
pub proof fn lemma_absorbed_all_names(list: Seq<ModuleView>, more: Seq<ModuleView>)
    ensures
        absorbed_all(list, more).len() >= list.len(),
        forall|i: int|
            0 <= i < list.len() ==> (#[trigger] absorbed_all(list, more)[i]).name == list[i].name,
        forall|k: int|
            0 <= k < more.len() ==> position(absorbed_all(list, more), (#[trigger] more[k]).name)
                >= 0,
    decreases more.len(),
{
    if more.len() > 0 {
        let init = more.drop_last();
        let before = absorbed_all(list, init);
        lemma_absorbed_all_names(list, init);
        lemma_absorbed(before, more.last());
        assert forall|i: int| 0 <= i < list.len() implies (#[trigger] absorbed_all(
            list,
            more,
        )[i]).name == list[i].name by {
            assert(absorbed(before, more.last())[i].name == before[i].name);
        }
        assert forall|k: int| 0 <= k < more.len() implies position(
            absorbed_all(list, more),
            (#[trigger] more[k]).name,
        ) >= 0 by {
            lemma_position_absorbed(before, more.last(), more[k].name);
            if k < more.len() - 1 {
                assert(init[k] == more[k]);
            }
        }
    }
}

/// Taking in modules makes no two modules of a list bear one name that did
/// not before.
pub proof fn lemma_absorbed_distinct(list: Seq<ModuleView>, m: ModuleView)
    requires
        distinct(list),
    ensures
        distinct(absorbed(list, m)),
{
    lemma_position(list, m.name);
    lemma_absorbed(list, m);
    let r = absorbed(list, m);
    assert forall|i: int, j: int| 0 <= i < j < r.len() implies (#[trigger] r[i]).name != (
    #[trigger] r[j]).name by {
        if j < list.len() {
            assert(r[i].name == list[i].name);
            assert(r[j].name == list[j].name);
        } else {
            assert(r[i].name == list[i].name);
            assert(r[j] == m);
        }
    }
}

/// What is merged of well-formed modules is well formed.
pub proof fn lemma_merged_well_formed(a: ModuleView, b: ModuleView)
    requires
        well_formed(a),
        well_formed(b),
    ensures
        well_formed(merged(a, b)),
    decreases b, 0nat,
{
    lemma_absorbed_all_well_formed(a.submodules, b.submodules);
}

/// A list of well-formed modules of different names that takes in a
/// well-formed module is such a list again.
pub proof fn lemma_absorbed_well_formed(list: Seq<ModuleView>, m: ModuleView)
    requires
        distinct(list),
        each_well_formed(list),
        well_formed(m),
    ensures
        distinct(absorbed(list, m)),
        each_well_formed(absorbed(list, m)),
    decreases m, 1nat,
{
    lemma_absorbed_distinct(list, m);
    lemma_position(list, m.name);
    lemma_absorbed(list, m);
    let p = position(list, m.name);
    let r = absorbed(list, m);
    if p >= 0 {
        lemma_merged_well_formed(list[p], m);
    }
    assert forall|i: int| 0 <= i < r.len() implies well_formed(#[trigger] r[i]) by {
        if p >= 0 {
            if i != p {
                assert(r[i] == list[i]);
            }
        } else if i < list.len() {
            assert(r[i] == list[i]);
        }
    }
}

/// A list of well-formed modules of different names that takes in
/// well-formed modules is such a list again.
pub proof fn lemma_absorbed_all_well_formed(list: Seq<ModuleView>, more: Seq<ModuleView>)
    requires
        distinct(list),
        each_well_formed(list),
        each_well_formed(more),
    ensures
        distinct(absorbed_all(list, more)),
        each_well_formed(absorbed_all(list, more)),
    decreases more, 2nat,
{
    if more.len() > 0 {
        let init = more.drop_last();
        assert forall|i: int| 0 <= i < init.len() implies well_formed(#[trigger] init[i]) by {
            assert(init[i] == more[i]);
        }
        lemma_absorbed_all_well_formed(list, init);
        lemma_absorbed_well_formed(absorbed_all(list, init), more.last());
    }
}

/// Merging three modules gives the same tree whichever two of them are
/// merged first, where no two submodules of one module bear one name.
pub proof fn lemma_merge_associative(a: ModuleView, b: ModuleView, c: ModuleView)
    requires
        well_formed(b),
        well_formed(c),
    ensures
        merged(merged(a, b), c) == merged(a, merged(b, c)),
    decreases c, 0nat,
{
    crate::model::lemma_unique_associative(a.prelude, b.prelude, c.prelude);
    crate::model::lemma_unique_associative(a.imports, b.imports, c.imports);
    crate::model::lemma_unique_associative(a.classes, b.classes, c.classes);
    crate::model::lemma_unique_associative(a.type_vars, b.type_vars, c.type_vars);
    crate::model::lemma_unique_associative(a.functions, b.functions, c.functions);
    crate::model::lemma_unique_associative(a.properties, b.properties, c.properties);
    lemma_absorb_associative(a.submodules, b.submodules, c.submodules);
}

/// A forest that takes in two lists of modules one after the other is the
/// forest that takes in what the first list is after it has taken in the
/// second.
pub proof fn lemma_absorb_associative(
    list: Seq<ModuleView>,
    first: Seq<ModuleView>,
    second: Seq<ModuleView>,
)
    requires
        distinct(first),
        each_well_formed(first),
        each_well_formed(second),
    ensures
        absorbed_all(absorbed_all(list, first), second) == absorbed_all(
            list,
            absorbed_all(first, second),
        ),
    decreases second, 1nat,
{
    if second.len() > 0 {
        let init = second.drop_last();
        assert forall|i: int| 0 <= i < init.len() implies well_formed(#[trigger] init[i]) by {
            assert(init[i] == second[i]);
        }
        lemma_absorb_associative(list, first, init);
        lemma_absorbed_all_well_formed(first, init);
        lemma_absorb_step(list, absorbed_all(first, init), second.last());
    }
}

/// A forest that has taken in a list of modules and then takes in one more
/// is the forest that takes in the list after that has taken in the one.
pub proof fn lemma_absorb_step(list: Seq<ModuleView>, more: Seq<ModuleView>, m: ModuleView)
    requires
        distinct(more),
        each_well_formed(more),
        well_formed(m),
    ensures
        absorbed(absorbed_all(list, more), m) == absorbed_all(list, absorbed(more, m)),
    decreases m, 2nat, more.len(),
{
    let j = position(more, m.name);
    lemma_position(more, m.name);
    lemma_absorbed(more, m);
    if j == -1 {
        lemma_absorbed_all_push(list, more, m);
    } else {
        let init = more.drop_last();
        let last = more.last();
        let before = absorbed_all(list, init);
        assert(more =~= init.push(last));
        assert(absorbed_all(list, more) == absorbed(before, last));
        lemma_absorbed(before, last);
        lemma_position(before, last.name);
        if j == more.len() - 1 {
            let q = position(before, m.name);
            assert(last.name == m.name);
            assert(absorbed(more, m) =~= init.push(merged(last, m)));
            lemma_absorbed_all_push(list, init, merged(last, m));
            lemma_absorbed(before, merged(last, m));
            lemma_position_absorbed(before, last, m.name);
            lemma_absorbed(absorbed(before, last), m);
            if q >= 0 {
                lemma_merge_associative(before[q], last, m);
                assert(absorbed(absorbed(before, last), m) =~= absorbed(before, merged(last, m)));
            } else {
                assert(absorbed(absorbed(before, last), m) =~= absorbed(before, merged(last, m)));
            }
        } else {
            assert(init[j] == more[j]);
            assert forall|i: int| 0 <= i < j implies (#[trigger] init[i]).name != m.name by {
                assert(init[i] == more[i]);
            }
            lemma_position_is(init, m.name, j);
            lemma_absorbed(init, m);
            assert(absorbed(more, m) =~= absorbed(init, m).push(last));
            lemma_absorbed_all_push(list, absorbed(init, m), last);
            assert(distinct(init)) by {
                assert forall|x: int, y: int| 0 <= x < y < init.len() implies (#[trigger] init[x]).name
                    != (#[trigger] init[y]).name by {
                    assert(init[x] == more[x]);
                    assert(init[y] == more[y]);
                }
            }
            assert forall|i: int| 0 <= i < init.len() implies well_formed(#[trigger] init[i]) by {
                assert(init[i] == more[i]);
            }
            lemma_absorb_step(list, init, m);
            assert(last.name != m.name) by {
                assert(more[j].name != more[more.len() - 1].name);
            }
            lemma_absorbed_all_names(list, init);
            assert(position(before, init[j].name) >= 0);
            lemma_absorbed_commutes(before, m, last);
        }
    }
}

/// Two modules that are merged list the same members whichever of them
/// comes first: the order of the lists may differ, what they hold does not.
pub proof fn lemma_merge_members_commute(a: ModuleView, b: ModuleView)
    ensures
        forall|x: Seq<char>| merged(a, b).prelude.contains(x) == merged(b, a).prelude.contains(x),
        forall|x: crate::syntax::import::ImportView|
            merged(a, b).imports.contains(x) == merged(b, a).imports.contains(x),
        forall|x: crate::syntax::class::ClassView|
            merged(a, b).classes.contains(x) == merged(b, a).classes.contains(x),
        forall|x: crate::syntax::type_var::TypeVarView|
            merged(a, b).type_vars.contains(x) == merged(b, a).type_vars.contains(x),
        forall|x: crate::syntax::function::FunctionView|
            merged(a, b).functions.contains(x) == merged(b, a).functions.contains(x),
        forall|x: crate::syntax::property::PropertyView|
            merged(a, b).properties.contains(x) == merged(b, a).properties.contains(x),
{
    assert forall|x: Seq<char>|
        merged(a, b).prelude.contains(x) == merged(b, a).prelude.contains(x) by {
        lemma_union_commutes(a.prelude, b.prelude, x);
    }
    assert forall|x: crate::syntax::import::ImportView|
        merged(a, b).imports.contains(x) == merged(b, a).imports.contains(x) by {
        lemma_union_commutes(a.imports, b.imports, x);
    }
    assert forall|x: crate::syntax::class::ClassView|
        merged(a, b).classes.contains(x) == merged(b, a).classes.contains(x) by {
        lemma_union_commutes(a.classes, b.classes, x);
    }
    assert forall|x: crate::syntax::type_var::TypeVarView|
        merged(a, b).type_vars.contains(x) == merged(b, a).type_vars.contains(x) by {
        lemma_union_commutes(a.type_vars, b.type_vars, x);
    }
    assert forall|x: crate::syntax::function::FunctionView|
        merged(a, b).functions.contains(x) == merged(b, a).functions.contains(x) by {
        lemma_union_commutes(a.functions, b.functions, x);
    }
    assert forall|x: crate::syntax::property::PropertyView|
        merged(a, b).properties.contains(x) == merged(b, a).properties.contains(x) by {
        lemma_union_commutes(a.properties, b.properties, x);
    }
}

/// What two lists hold together does not depend on which comes first.
pub proof fn lemma_union_commutes<A>(a: Seq<A>, b: Seq<A>, x: A)
    ensures
        unique(a + b).contains(x) == unique(b + a).contains(x),
{
    crate::model::lemma_unique_contains(a + b, x);
    crate::model::lemma_unique_contains(b + a, x);
    if (a + b).contains(x) {
        let i = choose|i: int| 0 <= i < (a + b).len() && (a + b)[i] == x;
        if i < a.len() {
            assert((b + a)[b.len() + i] == x);
        } else {
            assert((b + a)[i - a.len()] == x);
        }
    }
    if (b + a).contains(x) {
        let i = choose|i: int| 0 <= i < (b + a).len() && (b + a)[i] == x;
        if i < b.len() {
            assert((a + b)[a.len() + i] == x);
        } else {
            assert((a + b)[i - b.len()] == x);
        }
    }
}

/// A module below its ancestors is well formed where the module is: each
/// ancestor holds one module only.
pub proof fn lemma_wrapped_well_formed(m: ModuleView, depth: nat)
    requires
        well_formed(m),
    ensures
        well_formed(wrapped(m, depth)),
    decreases depth,
{
    if depth > 0 {
        lemma_wrapped_well_formed(m, (depth - 1) as nat);
        let inner = wrapped(m, (depth - 1) as nat);
        assert(wrapped(m, depth).submodules =~= seq![inner]);
    }
}

/// In the canonical forest no two modules at the top bear one name, and
/// where the requested modules are well formed, no two siblings anywhere in
/// the forest do.
pub proof fn lemma_canonical_forest_distinct(modules: Seq<ModuleView>, n: int)
    requires
        0 <= n <= modules.len(),
    ensures
        distinct(canonical_forest(modules, n)),
        each_well_formed(modules) ==> each_well_formed(canonical_forest(modules, n)),
    decreases n,
{
    if n > 0 {
        lemma_canonical_forest_distinct(modules, n - 1);
        let m = modules[n - 1];
        lemma_absorbed_distinct(canonical_forest(modules, n - 1), embedded(m));
        if each_well_formed(modules) {
            assert(well_formed(m));
            if m.name.segments.len() > 1 {
                lemma_wrapped_well_formed(m, (m.name.segments.len() - 1) as nat);
            }
            lemma_absorbed_well_formed(canonical_forest(modules, n - 1), embedded(m));
        }
    }
}

} // verus!
