//! The types that a scope can refer to, each with the reference to write.

use crate::model::Model;
use crate::path::{Path, PathView};
use crate::text::views;
use vstd::prelude::*;

verus! {

/// A type known under `key` and the reference that stands for it.
#[derive(Debug)]
pub struct LocalType {
    pub key: Path,
    pub reference: Path,
}

/// [`LocalType`] with its paths as sequences.
pub struct LocalTypeView {
    pub key: PathView,
    pub reference: PathView,
}

impl View for LocalType {
    type V = LocalTypeView;

    open spec fn view(&self) -> LocalTypeView {
        LocalTypeView { key: self.key@, reference: self.reference@ }
    }
}

/// The reference that `entries` gives for `key`: that of the last entry
/// under this key, as a later entry replaces an earlier one.
pub open spec fn lookup(entries: Seq<LocalTypeView>, key: PathView) -> Option<PathView>
    decreases entries.len(),
{
    if entries.len() == 0 {
        None
    } else if entries.last().key == key {
        Some(entries.last().reference)
    } else {
        lookup(entries.drop_last(), key)
    }
}

/// The types that code in one scope can refer to.
#[derive(Debug)]
pub struct LocalTypes {
    pub entries: Vec<LocalType>,
}

impl View for LocalTypes {
    type V = Seq<LocalTypeView>;

    open spec fn view(&self) -> Seq<LocalTypeView> {
        views(self.entries@)
    }
}

impl LocalTypes {
    /// No types.
    pub fn new() -> (t: LocalTypes)
        ensures
            t@ == Seq::<LocalTypeView>::empty(),
    {
        let t = LocalTypes { entries: Vec::new() };
        assert(t@ =~= Seq::<LocalTypeView>::empty());
        t
    }

    /// Makes `key` stand for `reference` from now on.
    pub fn insert(&mut self, key: Path, reference: Path)
        ensures
            final(self)@ == old(self)@.push(LocalTypeView { key: key@, reference: reference@ }),
    {
        crate::text::push_item(&mut self.entries, LocalType { key, reference });
    }

    /// The reference that stands for `key`, if there is one.
    pub fn get(&self, key: &Path) -> (r: Option<&Path>)
        ensures
            r is Some == lookup(self@, key@) is Some,
            r matches Some(p) ==> lookup(self@, key@) == Some(p@),
    {
        let mut i: usize = self.entries.len();
        assert(self@.take(i as int) =~= self@);
        while i > 0
            invariant
                i <= self.entries.len(),
                lookup(self@, key@) == lookup(self@.take(i as int), key@),
            decreases i,
        {
            let ghost cur = self@.take(i as int);
            assert(cur.drop_last() =~= self@.take(i as int - 1));
            assert(cur.last() == self.entries@[i as int - 1]@);
            if self.entries[i - 1].key.equals(key) {
                return Some(&self.entries[i - 1].reference);
            }
            i -= 1;
        }
        None
    }

    /// Whether a reference stands for `key`.
    pub fn contains_key(&self, key: &Path) -> (r: bool)
        ensures
            r == lookup(self@, key@) is Some,
    {
        self.get(key).is_some()
    }
}

} // verus!
