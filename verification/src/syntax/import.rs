//! Names that a module makes visible but does not define.

use crate::error::PyBindgenError;
use crate::ident::{ident_accepted, same_ident};
use crate::model::Model;
use crate::path::{
    path_to_rs, relative_segments, path_accepted, same_path, segments_start_with, Path,
    PathView,
};
use vstd::prelude::*;

verus! {

/// Where the origin of an import lies, seen from the module that imports.
#[derive(Debug, Clone, Copy, PartialEq, Eq, Structural)]
pub enum ImportType {
    /// Outside the package of the importing module.
    ExternalImport,
    /// In the same package, but not below the importing module.
    PackageReexport,
    /// Below the importing module.
    SubmoduleReexport,
}

/// A name that is defined at `origin` and made visible at `target`.
#[derive(Debug)]
pub struct Import {
    pub origin: Path,
    pub target: Path,
    pub import_type: ImportType,
}

/// [`Import`] with its paths as sequences.
pub struct ImportView {
    pub origin: PathView,
    pub target: PathView,
    pub import_type: ImportType,
}

impl View for Import {
    type V = ImportView;

    open spec fn view(&self) -> ImportView {
        ImportView { origin: self.origin@, target: self.target@, import_type: self.import_type }
    }
}

impl Model for Import {
    fn copy(&self) -> (r: Import) {
        Import {
            origin: self.origin.copy(),
            target: self.target.copy(),
            import_type: self.import_type,
        }
    }

    fn equals(&self, other: &Import) -> (r: bool) {
        self.origin.equals(&other.origin) && self.target.equals(&other.target) && self.import_type
            == other.import_type
    }
}

impl Clone for Import {
    fn clone(&self) -> (r: Import)
        ensures
            r@ == self@,
    {
        self.copy()
    }
}

impl PartialEq for Import {
    fn eq(&self, other: &Import) -> (r: bool) {
        self.equals(other)
    }
}

impl Eq for Import {

}

impl vstd::std_specs::cmp::PartialEqSpecImpl for Import {
    open spec fn obeys_eq_spec() -> bool {
        true
    }

    open spec fn eq_spec(&self, other: &Import) -> bool {
        self@ == other@
    }
}

/// Whether `origin` lies in the package that `target` lies in: both start
/// with the same segment.
pub open spec fn in_same_package(origin: PathView, target: PathView) -> bool {
    target.segments.len() > 0 && segments_start_with(origin.segments, target.segments.take(1))
}

/// Whether `origin` lies below the module that holds `target`.
pub open spec fn below_parent(origin: PathView, target: PathView) -> bool {
    target.segments.len() > 1 && segments_start_with(origin.segments, target.segments.drop_last())
}

/// The kind of the import of `origin` as `target`.
pub open spec fn import_type_of(origin: PathView, target: PathView) -> ImportType {
    if !in_same_package(origin, target) {
        ImportType::ExternalImport
    } else if below_parent(origin, target) {
        ImportType::SubmoduleReexport
    } else {
        ImportType::PackageReexport
    }
}

/// The module that holds the target of an import.
pub open spec fn import_scope(target: PathView) -> PathView {
    if target.segments.len() > 1 {
        PathView { leading_colon: target.leading_colon, segments: target.segments.drop_last() }
    } else {
        PathView { leading_colon: false, segments: Seq::empty() }
    }
}

/// The text of the path by which the module that holds the target of `i`
/// refers to its origin.
pub open spec fn import_path_text(i: ImportView) -> Seq<char> {
    path_to_rs(
        PathView {
            leading_colon: false,
            segments: relative_segments(import_scope(i.target), i.origin, true),
        },
    )
}

/// Whether a `use` item is written for `i`: only for a re-export from below
/// the importing module that does not import a name as itself, and only where
/// the reference to the origin is a Rust path.
pub open spec fn import_written(i: ImportView) -> bool {
    i.import_type == ImportType::SubmoduleReexport && !same_path(i.origin, i.target)
        && path_accepted(import_path_text(i))
}

/// Whether the `use` item for `i` gives the name a new spelling.
pub open spec fn import_renames(i: ImportView) -> bool {
    !same_ident(i.origin.segments.last(), i.target.segments.last())
}

/// The generated code for `i`.
pub open spec fn import_text(i: ImportView) -> Seq<char> {
    if !import_written(i) {
        Seq::empty()
    } else if import_renames(i) {
        "pub use "@ + import_path_text(i) + " as "@ + i.target.segments.last() + ";\n"@
    } else {
        "pub use "@ + import_path_text(i) + ";\n"@
    }
}

impl ImportType {
    /// Tells where `origin` lies, seen from the module that holds `target`.
    pub fn from_paths(origin: &Path, target: &Path) -> (t: ImportType)
        ensures
            t == import_type_of(origin@, target@),
    {
        let in_package = match target.root() {
            Some(root) => {
                assert(root@.segments =~= target@.segments.take(1));
                origin.starts_with(&root)
            },
            None => false,
        };
        let below = in_package && match target.parent() {
            Some(parent) => origin.starts_with(&parent),
            None => false,
        };
        if !in_package {
            ImportType::ExternalImport
        } else if below {
            ImportType::SubmoduleReexport
        } else {
            ImportType::PackageReexport
        }
    }
}

impl Import {
    /// The import of `origin` as `target`.
    pub fn new(origin: Path, target: Path) -> (i: Import)
        ensures
            i@ == (ImportView {
                origin: origin@,
                target: target@,
                import_type: import_type_of(origin@, target@),
            }),
    {
        let import_type = ImportType::from_paths(&origin, &target);
        Import { origin, target, import_type }
    }

    /// Whether the origin lies outside the package of the importing module.
    pub fn is_external(&self) -> (r: bool)
        ensures
            r == (self@.import_type == ImportType::ExternalImport),
    {
        self.import_type == ImportType::ExternalImport
    }

    /// The generated code for the import: a public `use` item, or nothing
    /// where none is written. It fails where the item needs the target's name
    /// as an alias and that name is no Rust identifier. A re-export from
    /// below the importing module has a name at both ends.
    pub fn generate(&self) -> (r: Result<String, PyBindgenError>)
        requires
            self@.import_type == ImportType::SubmoduleReexport ==> self@.origin.segments.len() > 0
                && self@.target.segments.len() > 0,
        ensures
            r is Err == (import_written(self@) && import_renames(self@) && !ident_accepted(
                self@.target.segments.last(),
            )),
            r matches Ok(s) ==> s@ == import_text(self@),
            r matches Err(e) ==> e is SynError,
    {
        if self.import_type != ImportType::SubmoduleReexport {
            return Ok(String::new());
        }
        if self.origin.same(&self.target) {
            return Ok(String::new());
        }
        let scope = match self.target.parent() {
            Some(parent) => parent,
            None => Path::default(),
        };
        assert(scope@ == import_scope(self@.target));
        let relative = scope.relative_to(&self.origin, true);
        match relative.to_token() {
            Ok(path_text) => {
                let mut s = String::from_str("pub use ");
                s.append(path_text.as_str());
                if !self.origin.name().same(self.target.name()) {
                    match self.target.name().to_token() {
                        Ok(alias) => {
                            s.append(" as ");
                            s.append(alias.as_str());
                        },
                        Err(e) => {
                            return Err(e);
                        },
                    }
                }
                s.append(";\n");
                Ok(s)
            },
            Err(_) => Ok(String::new()),
        }
    }
}

} // verus!
