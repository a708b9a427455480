//! What the data types of the library have in common: a mathematical model,
//! a copy that keeps it, and a test that compares it.

use crate::ident::Ident;
use crate::path::Path;
use crate::text::{push_item, views};
use crate::typing::Type;
use vstd::prelude::*;

verus! {

/// A value that can be copied and compared by its model.
pub trait Model: View + Sized {
    /// A copy with the same model.
    fn copy(&self) -> (r: Self)
        ensures
            r@ == self@,
    ;

    /// Whether `self` and `other` have the same model.
    fn equals(&self, other: &Self) -> (r: bool)
        ensures
            r == (self@ == other@),
    ;
}

impl Model for String {
    fn copy(&self) -> (r: String) {
        self.clone()
    }

    fn equals(&self, other: &String) -> (r: bool) {
        *self == *other
    }
}

impl Model for Ident {
    fn copy(&self) -> (r: Ident) {
        self.clone()
    }

    /// Compares the Rust spellings.
    fn equals(&self, other: &Ident) -> (r: bool) {
        self.is_rs(other.as_rs())
    }
}

impl Model for Path {
    fn copy(&self) -> (r: Path) {
        self.clone()
    }

    fn equals(&self, other: &Path) -> (r: bool) {
        self.leading_colon == other.leading_colon && same_list(&self.segments, &other.segments)
    }
}

impl Model for Type {
    fn copy(&self) -> (r: Type) {
        self.clone()
    }

    fn equals(&self, other: &Type) -> (r: bool) {
        self.same(other)
    }
}

/// The model of an optional value.
pub open spec fn view_opt<T: View>(o: Option<T>) -> Option<T::V> {
    match o {
        Some(x) => Some(x@),
        None => None,
    }
}

/// A copy of an optional value.
pub fn copy_opt<T: Model>(o: &Option<T>) -> (r: Option<T>)
    ensures
        view_opt(r) == view_opt(*o),
{
    match o {
        Some(x) => Some(x.copy()),
        None => None,
    }
}

/// Whether two optional values have the same model.
pub fn same_opt<T: Model>(a: &Option<T>, b: &Option<T>) -> (r: bool)
    ensures
        r == (view_opt(*a) == view_opt(*b)),
{
    match (a, b) {
        (Some(x), Some(y)) => x.equals(y),
        (None, None) => true,
        _ => false,
    }
}

/// A copy of a list.
pub fn copy_list<T: Model>(v: &Vec<T>) -> (r: Vec<T>)
    ensures
        views(r@) == views(v@),
{
    let mut out: Vec<T> = Vec::new();
    let mut i: usize = 0;
    assert(views(out@) =~= views(v@).take(0));
    while i < v.len()
        invariant
            i <= v.len(),
            views(out@) == views(v@).take(i as int),
        decreases v.len() - i,
    {
        push_item(&mut out, v[i].copy());
        assert(views(out@) =~= views(v@).take(i as int + 1));
        i += 1;
    }
    assert(views(v@).take(v.len() as int) =~= views(v@));
    out
}

/// Whether two lists hold the same models in the same order.
pub fn same_list<T: Model>(a: &Vec<T>, b: &Vec<T>) -> (r: bool)
    ensures
        r == (views(a@) == views(b@)),
{
    if a.len() != b.len() {
        assert(views(a@).len() != views(b@).len());
        return false;
    }
    let mut i: usize = 0;
    while i < a.len()
        invariant
            i <= a.len(),
            a.len() == b.len(),
            forall|j: int| 0 <= j < i ==> a[j]@ == b[j]@,
        decreases a.len() - i,
    {
        if !a[i].equals(&b[i]) {
            assert(views(a@)[i as int] != views(b@)[i as int]);
            return false;
        }
        i += 1;
    }
    assert(views(a@) =~= views(b@));
    true
}

/// Whether the list holds an item with the model of `x`.
pub fn holds<T: Model>(v: &Vec<T>, x: &T) -> (r: bool)
    ensures
        r == views(v@).contains(x@),
{
    let mut i: usize = 0;
    while i < v.len()
        invariant
            i <= v.len(),
            forall|j: int| 0 <= j < i ==> v[j]@ != x@,
        decreases v.len() - i,
    {
        if v[i].equals(x) {
            assert(views(v@)[i as int] == x@);
            return true;
        }
        i += 1;
    }
    assert forall|j: int| 0 <= j < views(v@).len() implies views(v@)[j] != x@ by {
        assert(views(v@)[j] == v[j]@);
    }
    false
}

/// The items of `s` in order, each model kept only where it occurs first.
pub open spec fn unique<A>(s: Seq<A>) -> Seq<A>
    decreases s.len(),
{
    if s.len() == 0 {
        Seq::empty()
    } else {
        let head = unique(s.drop_last());
        if head.contains(s.last()) {
            head
        } else {
            head.push(s.last())
        }
    }
}

/// Appends to `out` the items of `more` whose model `out` does not hold yet.
pub fn extend_unique<T: Model>(out: &mut Vec<T>, more: &Vec<T>)
    requires
        unique(views(old(out)@)) == views(old(out)@),
    ensures
        views(final(out)@) == unique(views(old(out)@) + views(more@)),
        unique(views(final(out)@)) == views(final(out)@),
{
    let ghost base = views(out@);
    let ghost all = views(more@);
    let mut i: usize = 0;
    assert(base + all.take(0) =~= base);
    while i < more.len()
        invariant
            i <= more.len(),
            base == views(old(out)@),
            all == views(more@),
            views(out@) == unique(base + all.take(i as int)),
        decreases more.len() - i,
    {
        let ghost next = base + all.take(i as int + 1);
        assert(next.drop_last() =~= base + all.take(i as int));
        assert(next.last() == more@[i as int]@);
        if !holds(out, &more[i]) {
            push_item(out, more[i].copy());
        }
        i += 1;
    }
    assert(all.take(more.len() as int) =~= all);
    proof {
        lemma_unique_idempotent(base + all);
    }
}

/// What is in `unique(s)` is what is in `s`.
pub proof fn lemma_unique_contains<A>(s: Seq<A>, x: A)
    ensures
        unique(s).contains(x) == s.contains(x),
    decreases s.len(),
{
    if s.len() > 0 {
        let init = s.drop_last();
        let head = unique(init);
        let u = unique(s);
        lemma_unique_contains(init, x);
        lemma_unique_contains(init, s.last());
        if u.contains(x) {
            let i = choose|i: int| 0 <= i < u.len() && u[i] == x;
            if head.contains(s.last()) || i < head.len() {
                assert(head.contains(x)) by {
                    if !head.contains(s.last()) {
                        assert(head[i] == x);
                    }
                }
                let j = choose|j: int| 0 <= j < init.len() && init[j] == x;
                assert(s[j] == x);
            } else {
                assert(s[s.len() - 1] == x);
            }
        }
        if s.contains(x) {
            let i = choose|i: int| 0 <= i < s.len() && s[i] == x;
            if i < s.len() - 1 {
                assert(init[i] == x);
                let j = choose|j: int| 0 <= j < head.len() && head[j] == x;
                assert(u[j] == x);
            } else if head.contains(s.last()) {
            } else {
                assert(u[head.len() as int] == x);
            }
        }
    }
}

/// Nothing occurs twice in `unique(s)`.
pub proof fn lemma_unique_no_duplicates<A>(s: Seq<A>)
    ensures
        unique(s).no_duplicates(),
    decreases s.len(),
{
    if s.len() > 0 {
        lemma_unique_no_duplicates(s.drop_last());
    }
}

/// A list in which nothing occurs twice is its own `unique`.
pub proof fn lemma_unique_of_distinct<A>(s: Seq<A>)
    requires
        s.no_duplicates(),
    ensures
        unique(s) == s,
    decreases s.len(),
{
    if s.len() > 0 {
        lemma_unique_of_distinct(s.drop_last());
        if s.drop_last().contains(s.last()) {
            let i = choose|i: int| 0 <= i < s.len() - 1 && s.drop_last()[i] == s.last();
            assert(s[i] == s[s.len() - 1]);
        }
        assert(s.drop_last().push(s.last()) =~= s);
    }
}

/// `unique` changes nothing when it is applied a second time.
pub proof fn lemma_unique_idempotent<A>(s: Seq<A>)
    ensures
        unique(unique(s)) == unique(s),
{
    lemma_unique_no_duplicates(s);
    lemma_unique_of_distinct(unique(s));
}

} // verus!

verus! {

/// Removing the repetitions of the first part of a list beforehand changes
/// nothing of what `unique` keeps of the whole.
pub proof fn lemma_unique_append<A>(a: Seq<A>, b: Seq<A>)
    ensures
        unique(unique(a) + b) == unique(a + b),
    decreases b.len(),
{
    if b.len() == 0 {
        assert(unique(a) + b =~= unique(a));
        assert(a + b =~= a);
        lemma_unique_idempotent(a);
    } else {
        assert((unique(a) + b).drop_last() =~= unique(a) + b.drop_last());
        assert((a + b).drop_last() =~= a + b.drop_last());
        lemma_unique_append(a, b.drop_last());
    }
}

/// Removing the repetitions of the last part of a list beforehand changes
/// nothing of what `unique` keeps of the whole.
pub proof fn lemma_unique_append_right<A>(a: Seq<A>, b: Seq<A>)
    ensures
        unique(a + unique(b)) == unique(a + b),
    decreases b.len(),
{
    if b.len() == 0 {
        assert(unique(b) =~= b);
    } else {
        let init = b.drop_last();
        lemma_unique_append_right(a, init);
        assert((a + b).drop_last() =~= a + init);
        lemma_unique_contains(a + init, b.last());
        lemma_unique_contains(a + unique(init), b.last());
        lemma_unique_contains(init, b.last());
        if unique(init).contains(b.last()) {
            assert(unique(b) == unique(init));
            let i = choose|i: int| 0 <= i < init.len() && init[i] == b.last();
            assert((a + init)[a.len() + i] == b.last());
        } else {
            assert(unique(b) == unique(init).push(b.last()));
            assert((a + unique(b)).drop_last() =~= a + unique(init));
            assert((a + unique(b)).last() == b.last());
        }
    }
}

/// Joining three lists without repetitions gives the same whichever two are
/// joined first.
pub proof fn lemma_unique_associative<A>(a: Seq<A>, b: Seq<A>, c: Seq<A>)
    ensures
        unique(unique(a + b) + c) == unique(a + unique(b + c)),
{
    lemma_unique_append(a + b, c);
    lemma_unique_append_right(a, b + c);
    assert((a + b) + c =~= a + (b + c));
}

/// The items of `a` and then those of `b`, each kept where it occurs first.
pub fn union_unique<T: Model>(a: &Vec<T>, b: &Vec<T>) -> (out: Vec<T>)
    ensures
        views(out@) == unique(views(a@) + views(b@)),
{
    let mut out: Vec<T> = Vec::new();
    assert(views(out@) =~= Seq::<T::V>::empty());
    extend_unique(&mut out, a);
    assert(Seq::<T::V>::empty() + views(a@) =~= views(a@));
    extend_unique(&mut out, b);
    proof {
        lemma_unique_append(views(a@), views(b@));
    }
    out
}

} // verus!
