//! The canonical forest and the order of requests: whichever way round
//! modules are merged, the same modules come to stand at the same paths and
//! hold the same members. Only the order of the lists can differ.

use crate::canonical::{
    absorbed, absorbed_all, canonical_forest, distinct, each_well_formed, embedded,
    lemma_absorbed, lemma_position, lemma_position_absorbed, lemma_position_is,
    lemma_position_none, merged, position, well_formed,
};
use crate::model::lemma_unique_contains;
use crate::path::PathView;
use crate::syntax::class::ClassView;
use crate::syntax::function::FunctionView;
use crate::syntax::import::ImportView;
use crate::syntax::module::ModuleView;
use crate::syntax::property::PropertyView;
use crate::syntax::type_var::TypeVarView;
use vstd::prelude::*;

verus! {

/// Whether two modules bear one name and hold the same members, whatever
/// the order of their lists: the same names in the prelude, the same
/// imports, classes, type variables, functions and properties. The
/// docstrings are not compared: of two that differ, merged modules keep the
/// one that came first.
pub open spec fn same_members(a: ModuleView, b: ModuleView) -> bool {
    &&& a.name == b.name
    &&& a.is_package == b.is_package
    &&& forall|x: Seq<char>| a.prelude.contains(x) == b.prelude.contains(x)
    &&& forall|x: ImportView| a.imports.contains(x) == b.imports.contains(x)
    &&& forall|x: ClassView| a.classes.contains(x) == b.classes.contains(x)
    &&& forall|x: TypeVarView| a.type_vars.contains(x) == b.type_vars.contains(x)
    &&& forall|x: FunctionView| a.functions.contains(x) == b.functions.contains(x)
    &&& forall|x: PropertyView| a.properties.contains(x) == b.properties.contains(x)
}

/// Whether two modules are the same tree up to the order of their lists:
/// they hold the same members, each submodule of the first has its name
/// among the submodules of the second, where the module of that name is the
/// same tree in turn, and the second has no submodule of another name.
pub open spec fn same_tree(a: ModuleView, b: ModuleView) -> bool
    decreases a,
{
    &&& same_members(a, b)
    &&& forall|i: int|
        0 <= i < a.submodules.len() ==> {
            let j = position(b.submodules, (#[trigger] a.submodules[i]).name);
            0 <= j < b.submodules.len() && same_tree(a.submodules[i], b.submodules[j])
        }
    &&& forall|j: int|
        0 <= j < b.submodules.len() ==> position(
            a.submodules,
            (#[trigger] b.submodules[j]).name,
        ) >= 0
}

/// Whether two lists of modules are the same forest up to order: each
/// module of the first has its name in the second, where the module of that
/// name is the same tree, and the second has no module of another name.
pub open spec fn same_forest(x: Seq<ModuleView>, y: Seq<ModuleView>) -> bool {
    &&& forall|i: int|
        0 <= i < x.len() ==> {
            let j = position(y, (#[trigger] x[i]).name);
            0 <= j < y.len() && same_tree(x[i], y[j])
        }
    &&& forall|j: int| 0 <= j < y.len() ==> position(x, (#[trigger] y[j]).name) >= 0
}

/// The first module of `list` that is called `name`, if there is one.
pub open spec fn found(list: Seq<ModuleView>, name: PathView) -> Option<ModuleView> {
    let p = position(list, name);
    if 0 <= p < list.len() {
        Some(list[p])
    } else {
        None
    }
}

/// What stands at a name where `x` stood there in one list and `y` in a list
/// that the first has taken in.
pub open spec fn joined(x: Option<ModuleView>, y: Option<ModuleView>) -> Option<ModuleView> {
    match x {
        Some(a) => match y {
            Some(b) => Some(merged(a, b)),
            None => Some(a),
        },
        None => y,
    }
}

/// Whether the same tree stands at a name in two forests, or nothing in
/// both.
pub open spec fn matching(x: Option<ModuleView>, y: Option<ModuleView>) -> bool {
    match x {
        Some(a) => y is Some && same_tree(a, y->0),
        None => y is None,
    }
}

/// Two modules are the same tree where they hold the same members and their
/// submodules are the same forest.
pub proof fn lemma_same_tree_unfolds(a: ModuleView, b: ModuleView)
    ensures
        same_tree(a, b) == (same_members(a, b) && same_forest(a.submodules, b.submodules)),
{
}

/// What is found in a list at a name bears that name, and a module of a
/// list is found at its name.
pub proof fn lemma_found(list: Seq<ModuleView>, name: PathView)
    ensures
        found(list, name) matches Some(m) ==> m.name == name,
        forall|i: int|
            0 <= i < list.len() && (#[trigger] list[i]).name == name ==> found(list, name) is Some,
{
    lemma_position(list, name);
}

/// In a list without two modules of one name, each module is what is found
/// at its name.
pub proof fn lemma_found_own(list: Seq<ModuleView>, i: int)
    requires
        distinct(list),
        0 <= i < list.len(),
    ensures
        found(list, list[i].name) == Some(list[i]),
{
    assert forall|k: int| 0 <= k < i implies (#[trigger] list[k]).name != list[i].name by {
        assert(list[k].name != list[i].name);
    }
    lemma_position_is(list, list[i].name, i);
}

/// What stands at a name after a list has taken in a module.
pub proof fn lemma_found_absorbed(list: Seq<ModuleView>, m: ModuleView, name: PathView)
    ensures
        found(absorbed(list, m), name) == if m.name == name {
            joined(found(list, name), Some(m))
        } else {
            found(list, name)
        },
{
    lemma_position(list, name);
    lemma_position(list, m.name);
    lemma_absorbed(list, m);
    lemma_position_absorbed(list, m, name);
}

/// What stands at a name after a list has taken in a list without two
/// modules of one name.
pub proof fn lemma_found_absorbed_all(
    list: Seq<ModuleView>,
    more: Seq<ModuleView>,
    name: PathView,
)
    requires
        distinct(more),
    ensures
        found(absorbed_all(list, more), name) == joined(found(list, name), found(more, name)),
    decreases more.len(),
{
    if more.len() > 0 {
        let init = more.drop_last();
        let last = more.last();
        assert forall|i: int, j: int| 0 <= i < j < init.len() implies (#[trigger] init[i]).name != (
        #[trigger] init[j]).name by {
            assert(more[i].name != more[j].name);
        }
        lemma_found_absorbed_all(list, init, name);
        lemma_found_absorbed(absorbed_all(list, init), last, name);
        lemma_position(init, name);
        if last.name == name {
            assert forall|i: int| 0 <= i < init.len() implies (#[trigger] init[i]).name
                != name by {
                assert(more[i].name != more[more.len() - 1].name);
            }
            lemma_position_none(init, name);
        }
    } else {
        lemma_position(more, name);
    }
}

/// In forests that are the same, the same tree stands at each name.
pub proof fn lemma_forest_matches(x: Seq<ModuleView>, y: Seq<ModuleView>, name: PathView)
    requires
        same_forest(x, y),
    ensures
        matching(found(x, name), found(y, name)),
{
    lemma_position(x, name);
    lemma_position(y, name);
    let p = position(x, name);
    let q = position(y, name);
    if p >= 0 {
        assert(x[p].name == name);
    } else if q >= 0 {
        assert(position(x, y[q].name) >= 0);
    }
}

/// Forests in which the same tree stands at each name are the same, where
/// no two modules of the first bear one name.
pub proof fn lemma_matching_forest(x: Seq<ModuleView>, y: Seq<ModuleView>)
    requires
        distinct(x),
        forall|name: PathView| matching(#[trigger] found(x, name), found(y, name)),
    ensures
        same_forest(x, y),
{
    assert forall|i: int| 0 <= i < x.len() implies {
        let j = position(y, (#[trigger] x[i]).name);
        0 <= j < y.len() && same_tree(x[i], y[j])
    } by {
        lemma_found_own(x, i);
        assert(matching(found(x, x[i].name), found(y, x[i].name)));
    }
    assert forall|j: int| 0 <= j < y.len() implies position(x, (#[trigger] y[j]).name) >= 0 by {
        lemma_found(y, y[j].name);
        assert(matching(found(x, y[j].name), found(y, y[j].name)));
    }
}

/// A module without two submodules of one name, anywhere, is the same tree
/// as itself.
pub proof fn lemma_same_tree_reflexive(a: ModuleView)
    requires
        well_formed(a),
    ensures
        same_tree(a, a),
    decreases a,
{
    assert forall|i: int| 0 <= i < a.submodules.len() implies {
        let j = position(a.submodules, (#[trigger] a.submodules[i]).name);
        0 <= j < a.submodules.len() && same_tree(a.submodules[i], a.submodules[j])
    } by {
        lemma_found_own(a.submodules, i);
        lemma_same_tree_reflexive(a.submodules[i]);
    }
    assert forall|j: int| 0 <= j < a.submodules.len() implies position(
        a.submodules,
        (#[trigger] a.submodules[j]).name,
    ) >= 0 by {
        lemma_found_own(a.submodules, j);
    }
}

/// What two lists hold together is what one of them holds.
pub proof fn lemma_union_contains<A>(a: Seq<A>, b: Seq<A>, x: A)
    ensures
        crate::model::unique(a + b).contains(x) == (a.contains(x) || b.contains(x)),
{
    lemma_unique_contains(a + b, x);
    if (a + b).contains(x) {
        let i = choose|i: int| 0 <= i < (a + b).len() && (a + b)[i] == x;
        if i < a.len() {
            assert(a[i] == x);
        } else {
            assert(b[i - a.len()] == x);
        }
    }
    if a.contains(x) {
        let i = choose|i: int| 0 <= i < a.len() && a[i] == x;
        assert((a + b)[i] == x);
    }
    if b.contains(x) {
        let i = choose|i: int| 0 <= i < b.len() && b[i] == x;
        assert((a + b)[a.len() + i] == x);
    }
}

/// Lists that hold the same items hold the same items together, whichever
/// of them comes first.
proof fn lemma_union_same<A>(a: Seq<A>, a2: Seq<A>, b: Seq<A>, b2: Seq<A>)
    requires
        forall|x: A| a.contains(x) == a2.contains(x),
        forall|x: A| b.contains(x) == b2.contains(x),
    ensures
        forall|x: A|
            crate::model::unique(a + b).contains(x) == crate::model::unique(a2 + b2).contains(x),
        forall|x: A|
            crate::model::unique(a + b).contains(x) == crate::model::unique(b2 + a2).contains(x),
{
    assert forall|x: A|
        crate::model::unique(a + b).contains(x) == crate::model::unique(a2 + b2).contains(x)
            && crate::model::unique(a + b).contains(x) == crate::model::unique(b2 + a2).contains(
            x,
        ) by {
        lemma_union_contains(a, b, x);
        lemma_union_contains(a2, b2, x);
        lemma_union_contains(b2, a2, x);
        assert(a.contains(x) == a2.contains(x));
        assert(b.contains(x) == b2.contains(x));
    }
}

/// Modules that hold the same members hold the same members where they are
/// merged, whichever of them comes first.
proof fn lemma_merged_members(a: ModuleView, a2: ModuleView, b: ModuleView, b2: ModuleView)
    requires
        same_members(a, a2),
        same_members(b, b2),
    ensures
        same_members(merged(a, b), merged(a2, b2)),
        a.name == b.name ==> same_members(merged(a, b), merged(b2, a2)),
{
    lemma_union_same(a.prelude, a2.prelude, b.prelude, b2.prelude);
    lemma_union_same(a.imports, a2.imports, b.imports, b2.imports);
    lemma_union_same(a.classes, a2.classes, b.classes, b2.classes);
    lemma_union_same(a.type_vars, a2.type_vars, b.type_vars, b2.type_vars);
    lemma_union_same(a.functions, a2.functions, b.functions, b2.functions);
    lemma_union_same(a.properties, a2.properties, b.properties, b2.properties);
}

/// Merging does not depend on order: modules that are the same trees give
/// the same tree where they are merged, whichever of them comes first.
pub proof fn lemma_merged_same(a: ModuleView, a2: ModuleView, b: ModuleView, b2: ModuleView)
    requires
        well_formed(a),
        well_formed(a2),
        well_formed(b),
        well_formed(b2),
        same_tree(a, a2),
        same_tree(b, b2),
    ensures
        same_tree(merged(a, b), merged(a2, b2)),
        a.name == b.name ==> same_tree(merged(a, b), merged(b2, a2)),
    decreases a,
{
    lemma_same_tree_unfolds(a, a2);
    lemma_same_tree_unfolds(b, b2);
    lemma_merged_members(a, a2, b, b2);
    let x = a.submodules;
    let x2 = a2.submodules;
    let y = b.submodules;
    let y2 = b2.submodules;
    let r = absorbed_all(x, y);
    let r2 = absorbed_all(x2, y2);
    let r3 = absorbed_all(y2, x2);
    crate::canonical::lemma_absorbed_all_well_formed(x, y);
    assert forall|name: PathView|
        matching(#[trigger] found(r, name), found(r2, name)) && matching(
            found(r, name),
            found(r3, name),
        ) by {
        lemma_found_absorbed_all(x, y, name);
        lemma_found_absorbed_all(x2, y2, name);
        lemma_found_absorbed_all(y2, x2, name);
        lemma_forest_matches(x, x2, name);
        lemma_forest_matches(y, y2, name);
        lemma_found(x, name);
        lemma_found(y, name);
        let p = position(x, name);
        let q = position(y, name);
        if 0 <= p < x.len() && 0 <= q < y.len() {
            let p_there = position(x2, name);
            let q_there = position(y2, name);
            assert(well_formed(x[p]));
            assert(well_formed(y[q]));
            assert(well_formed(x2[p_there]));
            assert(well_formed(y2[q_there]));
            lemma_merged_same(x[p], x2[p_there], y[q], y2[q_there]);
        }
    }
    lemma_matching_forest(r, r2);
    lemma_matching_forest(r, r3);
    lemma_same_tree_unfolds(merged(a, b), merged(a2, b2));
    lemma_same_tree_unfolds(merged(a, b), merged(b2, a2));
}

/// Two modules of one name give the same tree whichever is merged into the
/// other.
pub proof fn lemma_merge_commutes(a: ModuleView, b: ModuleView)
    requires
        well_formed(a),
        well_formed(b),
        a.name == b.name,
    ensures
        same_tree(merged(a, b), merged(b, a)),
{
    lemma_same_tree_reflexive(a);
    lemma_same_tree_reflexive(b);
    lemma_merged_same(a, a, b, b);
}

/// Being the same tree carries over: what is the same tree as a second
/// module, which is the same tree as a third, is the same tree as the third.
pub proof fn lemma_same_tree_transitive(a: ModuleView, b: ModuleView, c: ModuleView)
    requires
        same_tree(a, b),
        same_tree(b, c),
    ensures
        same_tree(a, c),
    decreases a,
{
    assert forall|x: Seq<char>| a.prelude.contains(x) == c.prelude.contains(x) by {
        assert(a.prelude.contains(x) == b.prelude.contains(x));
    }
    assert forall|x: ImportView| a.imports.contains(x) == c.imports.contains(x) by {
        assert(a.imports.contains(x) == b.imports.contains(x));
    }
    assert forall|x: ClassView| a.classes.contains(x) == c.classes.contains(x) by {
        assert(a.classes.contains(x) == b.classes.contains(x));
    }
    assert forall|x: TypeVarView| a.type_vars.contains(x) == c.type_vars.contains(x) by {
        assert(a.type_vars.contains(x) == b.type_vars.contains(x));
    }
    assert forall|x: FunctionView| a.functions.contains(x) == c.functions.contains(x) by {
        assert(a.functions.contains(x) == b.functions.contains(x));
    }
    assert forall|x: PropertyView| a.properties.contains(x) == c.properties.contains(x) by {
        assert(a.properties.contains(x) == b.properties.contains(x));
    }
    assert forall|i: int| 0 <= i < a.submodules.len() implies {
        let k = position(c.submodules, (#[trigger] a.submodules[i]).name);
        0 <= k < c.submodules.len() && same_tree(a.submodules[i], c.submodules[k])
    } by {
        let j = position(b.submodules, a.submodules[i].name);
        assert(same_tree(a.submodules[i], b.submodules[j]));
        let k = position(c.submodules, b.submodules[j].name);
        assert(same_tree(b.submodules[j], c.submodules[k]));
        lemma_same_tree_transitive(a.submodules[i], b.submodules[j], c.submodules[k]);
    }
    assert forall|k: int| 0 <= k < c.submodules.len() implies position(
        a.submodules,
        (#[trigger] c.submodules[k]).name,
    ) >= 0 by {
        let j = position(b.submodules, c.submodules[k].name);
        lemma_position(b.submodules, c.submodules[k].name);
        assert(position(a.submodules, b.submodules[j].name) >= 0);
    }
}

/// Being the same forest carries over in the same way.
pub proof fn lemma_same_forest_transitive(
    x: Seq<ModuleView>,
    y: Seq<ModuleView>,
    z: Seq<ModuleView>,
)
    requires
        same_forest(x, y),
        same_forest(y, z),
    ensures
        same_forest(x, z),
{
    assert forall|i: int| 0 <= i < x.len() implies {
        let k = position(z, (#[trigger] x[i]).name);
        0 <= k < z.len() && same_tree(x[i], z[k])
    } by {
        let j = position(y, x[i].name);
        assert(same_tree(x[i], y[j]));
        let k = position(z, y[j].name);
        assert(same_tree(y[j], z[k]));
        lemma_same_tree_transitive(x[i], y[j], z[k]);
    }
    assert forall|k: int| 0 <= k < z.len() implies position(x, (#[trigger] z[k]).name) >= 0 by {
        let j = position(y, z[k].name);
        lemma_position(y, z[k].name);
        assert(position(x, y[j].name) >= 0);
    }
}

/// Forests that are the same stay the same where each takes in a module,
/// and the two modules are the same tree.
pub proof fn lemma_absorbed_same(
    l: Seq<ModuleView>,
    l2: Seq<ModuleView>,
    m: ModuleView,
    m2: ModuleView,
)
    requires
        distinct(l),
        each_well_formed(l),
        each_well_formed(l2),
        well_formed(m),
        well_formed(m2),
        same_forest(l, l2),
        same_tree(m, m2),
    ensures
        same_forest(absorbed(l, m), absorbed(l2, m2)),
{
    let r = absorbed(l, m);
    let r2 = absorbed(l2, m2);
    crate::canonical::lemma_absorbed_distinct(l, m);
    assert forall|name: PathView| matching(#[trigger] found(r, name), found(r2, name)) by {
        lemma_found_absorbed(l, m, name);
        lemma_found_absorbed(l2, m2, name);
        lemma_forest_matches(l, l2, name);
        let p = position(l, name);
        if m.name == name && 0 <= p < l.len() {
            let p_there = position(l2, name);
            lemma_merged_same(l[p], l2[p_there], m, m2);
        }
    }
    lemma_matching_forest(r, r2);
}

/// A forest that takes in two modules is the same whichever it takes in
/// first.
pub proof fn lemma_absorbed_either_order(l: Seq<ModuleView>, u: ModuleView, v: ModuleView)
    requires
        distinct(l),
        each_well_formed(l),
        well_formed(u),
        well_formed(v),
    ensures
        same_forest(absorbed(absorbed(l, u), v), absorbed(absorbed(l, v), u)),
{
    let a = absorbed(absorbed(l, u), v);
    let b = absorbed(absorbed(l, v), u);
    crate::canonical::lemma_absorbed_distinct(l, u);
    crate::canonical::lemma_absorbed_distinct(absorbed(l, u), v);
    assert forall|name: PathView| matching(#[trigger] found(a, name), found(b, name)) by {
        lemma_found_absorbed(l, u, name);
        lemma_found_absorbed(absorbed(l, u), v, name);
        lemma_found_absorbed(l, v, name);
        lemma_found_absorbed(absorbed(l, v), u, name);
        let p = position(l, name);
        let here = 0 <= p < l.len();
        if here {
            assert(well_formed(l[p]));
            lemma_same_tree_reflexive(l[p]);
        }
        lemma_same_tree_reflexive(u);
        lemma_same_tree_reflexive(v);
        if u.name == name && v.name == name {
            lemma_merge_commutes(u, v);
            if here {
                crate::canonical::lemma_merge_associative(l[p], u, v);
                crate::canonical::lemma_merge_associative(l[p], v, u);
                crate::canonical::lemma_merged_well_formed(u, v);
                crate::canonical::lemma_merged_well_formed(v, u);
                lemma_merged_same(l[p], l[p], merged(u, v), merged(v, u));
            }
        } else if u.name == name {
            if here {
                crate::canonical::lemma_merged_well_formed(l[p], u);
                lemma_same_tree_reflexive(merged(l[p], u));
            }
        } else if v.name == name {
            if here {
                crate::canonical::lemma_merged_well_formed(l[p], v);
                lemma_same_tree_reflexive(merged(l[p], v));
            }
        }
    }
    lemma_matching_forest(a, b);
}

/// The requested modules with those at the positions `k` and `k + 1`
/// exchanged.
pub open spec fn exchanged(modules: Seq<ModuleView>, k: int) -> Seq<ModuleView> {
    modules.update(k, modules[k + 1]).update(k + 1, modules[k])
}

/// A well-formed module below its ancestors is well formed.
proof fn lemma_embedded_well_formed(m: ModuleView)
    requires
        well_formed(m),
    ensures
        well_formed(embedded(m)),
{
    if m.name.segments.len() > 1 {
        crate::canonical::lemma_wrapped_well_formed(m, (m.name.segments.len() - 1) as nat);
    }
}

/// The canonical forest does not depend on the order of the requests:
/// where two neighbours among the requested modules are exchanged, the
/// forest of the requests before them is the same list, and the forest of
/// any number of requests that includes both is the same forest up to the
/// order of its lists. Every other order is reached by such exchanges, and
/// being the same forest carries over from one to the next.
pub proof fn lemma_requests_commute(modules: Seq<ModuleView>, k: int, n: int)
    requires
        each_well_formed(modules),
        0 <= k,
        k + 1 < modules.len(),
        0 <= n <= modules.len(),
    ensures
        n <= k ==> canonical_forest(exchanged(modules, k), n) == canonical_forest(modules, n),
        n >= k + 2 ==> same_forest(
            canonical_forest(modules, n),
            canonical_forest(exchanged(modules, k), n),
        ),
    decreases n,
{
    let other = exchanged(modules, k);
    assert(each_well_formed(other)) by {
        assert forall|i: int| 0 <= i < other.len() implies well_formed(#[trigger] other[i]) by {
            if i == k {
                assert(well_formed(modules[k + 1]));
            } else if i == k + 1 {
                assert(well_formed(modules[k]));
            } else {
                assert(well_formed(modules[i]));
            }
        }
    }
    if 0 < n <= k {
        lemma_requests_commute(modules, k, n - 1);
    } else if n == k + 2 {
        lemma_requests_commute(modules, k, k);
        let before = canonical_forest(modules, k);
        let u = embedded(modules[k]);
        let v = embedded(modules[k + 1]);
        crate::canonical::lemma_canonical_forest_distinct(modules, k);
        lemma_embedded_well_formed(modules[k]);
        lemma_embedded_well_formed(modules[k + 1]);
        assert(canonical_forest(modules, k + 1) == absorbed(before, u));
        assert(canonical_forest(modules, k + 2) == absorbed(absorbed(before, u), v));
        assert(canonical_forest(other, k + 1) == absorbed(before, v));
        assert(canonical_forest(other, k + 2) == absorbed(absorbed(before, v), u));
        lemma_absorbed_either_order(before, u, v);
    } else if n > k + 2 {
        lemma_requests_commute(modules, k, n - 1);
        let m = embedded(modules[n - 1]);
        assert(other[n - 1] == modules[n - 1]);
        crate::canonical::lemma_canonical_forest_distinct(modules, n - 1);
        crate::canonical::lemma_canonical_forest_distinct(other, n - 1);
        lemma_embedded_well_formed(modules[n - 1]);
        lemma_same_tree_reflexive(m);
        lemma_absorbed_same(
            canonical_forest(modules, n - 1),
            canonical_forest(other, n - 1),
            m,
            m,
        );
    }
}

/// The docstring of two merged modules does not depend on which came
/// first, unless both have one and the two differ.
pub proof fn lemma_docstring_either_order(a: ModuleView, b: ModuleView)
    requires
        a.docstring is None || b.docstring is None || a.docstring == b.docstring,
    ensures
        merged(a, b).docstring == merged(b, a).docstring,
{
}

} // verus!
