//! The options of a generation run, and the filter on attribute names that
//! they define.

use crate::ident::{py_form, Ident};
use crate::model::copy_list;
use crate::path::Path;
use crate::text::{push_item, str_eq, views};
use vstd::prelude::*;

verus! {

/// Whether generated code keeps the name `py` for a member of its own, so that
/// no attribute may be bound under it.
pub open spec fn forbidden_function_name(py: Seq<char>) -> bool {
    py == "get_type"@ || py == "obj"@ || py == "py"@ || py == "repr"@ || py == "str"@
}

/// Tests whether generated code keeps the name `py` for itself.
pub fn is_forbidden_function_name(py: &str) -> (r: bool)
    ensures
        r == forbidden_function_name(py@),
{
    str_eq(py, "get_type") || str_eq(py, "obj") || str_eq(py, "py") || str_eq(py, "repr")
        || str_eq(py, "str")
}

/// Whether `py` starts with an underscore, which marks a private name.
pub open spec fn private_name(py: Seq<char>) -> bool {
    py.len() > 0 && py[0] == '_'
}

/// The options of a generation run.
#[derive(Debug)]
pub struct Config {
    /// Whether the submodules of the requested modules are generated too.
    pub traverse_submodules: bool,
    /// Whether a module's explicit list of exports becomes a prelude.
    pub generate_preludes: bool,
    /// Whether re-exports are generated.
    pub generate_imports: bool,
    /// Whether classes are generated.
    pub generate_classes: bool,
    /// Whether type variables are generated.
    pub generate_type_vars: bool,
    /// Whether functions are generated.
    pub generate_functions: bool,
    /// Whether properties are generated.
    pub generate_properties: bool,
    /// Whether docstrings become documentation.
    pub generate_docs: bool,
    /// Names of attributes that are always skipped.
    pub blocklist_names: Vec<String>,
    /// Whether names that start with an underscore are considered.
    pub include_private: bool,
    /// Whether the modules that the requested modules import from are
    /// generated too.
    pub generate_dependencies: bool,
    /// Whether what Python prints while it is inspected is discarded.
    pub suppress_python_stdout: bool,
    /// Whether what Python reports while it is inspected is discarded.
    pub suppress_python_stderr: bool,
}

/// The options, with the blocklist as a list of texts.
pub struct ConfigView {
    pub traverse_submodules: bool,
    pub generate_preludes: bool,
    pub generate_imports: bool,
    pub generate_classes: bool,
    pub generate_type_vars: bool,
    pub generate_functions: bool,
    pub generate_properties: bool,
    pub generate_docs: bool,
    pub blocklist_names: Seq<Seq<char>>,
    pub include_private: bool,
    pub generate_dependencies: bool,
    pub suppress_python_stdout: bool,
    pub suppress_python_stderr: bool,
}

impl View for Config {
    type V = ConfigView;

    open spec fn view(&self) -> ConfigView {
        ConfigView {
            traverse_submodules: self.traverse_submodules,
            generate_preludes: self.generate_preludes,
            generate_imports: self.generate_imports,
            generate_classes: self.generate_classes,
            generate_type_vars: self.generate_type_vars,
            generate_functions: self.generate_functions,
            generate_properties: self.generate_properties,
            generate_docs: self.generate_docs,
            blocklist_names: views(self.blocklist_names@),
            include_private: self.include_private,
            generate_dependencies: self.generate_dependencies,
            suppress_python_stdout: self.suppress_python_stdout,
            suppress_python_stderr: self.suppress_python_stderr,
        }
    }
}

/// The options that hold where none are given: everything is generated but
/// private names and dependencies, and the names of test packages and of
/// `builtins` are skipped.
pub open spec fn default_config() -> ConfigView {
    ConfigView {
        traverse_submodules: true,
        generate_preludes: true,
        generate_imports: true,
        generate_classes: true,
        generate_type_vars: true,
        generate_functions: true,
        generate_properties: true,
        generate_docs: true,
        blocklist_names: seq!["builtins"@, "testing"@, "tests"@, "test"@],
        include_private: false,
        generate_dependencies: false,
        suppress_python_stdout: true,
        suppress_python_stderr: true,
    }
}

/// Whether a segment of `module`, in its Python spelling, satisfies `p`.
pub open spec fn some_segment(module: Seq<Seq<char>>, p: spec_fn(Seq<char>) -> bool) -> bool {
    exists|i: int| 0 <= i < module.len() && p(py_form(#[trigger] module[i]))
}

/// Whether an attribute called `name` that was defined in `module` is
/// considered at all. It is not where generated code keeps its name for
/// itself; where it or a segment of its module is private and private names
/// are not included; where the blocklist holds its name; and where it comes
/// from `__future__` or from `typing`.
pub open spec fn attr_allowed(cfg: ConfigView, name: Seq<char>, module: Seq<Seq<char>>) -> bool {
    let py = py_form(name);
    !(forbidden_function_name(py) || (!cfg.include_private && (private_name(py) || some_segment(
        module,
        |s: Seq<char>| private_name(s),
    ))) || cfg.blocklist_names.contains(py) || some_segment(
        module,
        |s: Seq<char>| s == "__future__"@,
    ) || some_segment(module, |s: Seq<char>| s == "typing"@))
}

/// Whether `py` starts with an underscore.
pub fn is_private_name(py: &str) -> (r: bool)
    ensures
        r == private_name(py@),
{
    py.unicode_len() > 0 && py.get_char(0) == '_'
}

impl Config {
    /// Whether a segment of `module` is private.
    fn has_private_segment(module: &Path) -> (r: bool)
        ensures
            r == some_segment(module@.segments, |s: Seq<char>| private_name(s)),
    {
        let mut i: usize = 0;
        while i < module.len()
            invariant
                i <= module@.segments.len(),
                forall|j: int|
                    0 <= j < i ==> !private_name(py_form(#[trigger] module@.segments[j])),
            decreases module@.segments.len() - i,
        {
            if is_private_name(module.segment(i).as_py()) {
                return true;
            }
            i += 1;
        }
        false
    }

    /// Whether a segment of `module` is spelled `text` in Python.
    fn has_segment(module: &Path, text: &str) -> (r: bool)
        ensures
            r == exists|i: int|
                0 <= i < module@.segments.len() && py_form(#[trigger] module@.segments[i])
                    == text@,
    {
        let mut i: usize = 0;
        while i < module.len()
            invariant
                i <= module@.segments.len(),
                forall|j: int| 0 <= j < i ==> py_form(#[trigger] module@.segments[j]) != text@,
            decreases module@.segments.len() - i,
        {
            if module.segment(i).is_py(text) {
                return true;
            }
            i += 1;
        }
        false
    }

    /// Whether the blocklist holds `py`.
    fn is_blocked(&self, py: &str) -> (r: bool)
        ensures
            r == self@.blocklist_names.contains(py@),
    {
        let mut i: usize = 0;
        while i < self.blocklist_names.len()
            invariant
                i <= self.blocklist_names.len(),
                forall|j: int| 0 <= j < i ==> self@.blocklist_names[j] != py@,
            decreases self.blocklist_names.len() - i,
        {
            if str_eq(self.blocklist_names[i].as_str(), py) {
                assert(self@.blocklist_names[i as int] == py@);
                return true;
            }
            i += 1;
        }
        false
    }

    /// Whether an attribute called `attr_name` that was defined in
    /// `attr_module` is considered at all.
    pub fn is_attr_allowed(&self, attr_name: &Ident, attr_module: &Path) -> (r: bool)
        ensures
            r == attr_allowed(self@, attr_name@, attr_module@.segments),
    {
        let py = attr_name.as_py();
        let hidden = !self.include_private && (is_private_name(py) || Config::has_private_segment(
            attr_module,
        ));
        let from_future = Config::has_segment(attr_module, "__future__");
        let from_typing = Config::has_segment(attr_module, "typing");
        !(is_forbidden_function_name(py) || hidden || self.is_blocked(py) || from_future
            || from_typing)
    }
}

impl Default for Config {
    fn default() -> (cfg: Config)
        ensures
            cfg@ == default_config(),
    {
        let mut blocklist_names: Vec<String> = Vec::new();
        push_item(&mut blocklist_names, String::from_str("builtins"));
        push_item(&mut blocklist_names, String::from_str("testing"));
        push_item(&mut blocklist_names, String::from_str("tests"));
        push_item(&mut blocklist_names, String::from_str("test"));
        assert(views(blocklist_names@) =~= seq!["builtins"@, "testing"@, "tests"@, "test"@]);
        Config {
            traverse_submodules: true,
            generate_preludes: true,
            generate_imports: true,
            generate_classes: true,
            generate_type_vars: true,
            generate_functions: true,
            generate_properties: true,
            generate_docs: true,
            blocklist_names,
            include_private: false,
            generate_dependencies: false,
            suppress_python_stdout: true,
            suppress_python_stderr: true,
        }
    }
}

impl Clone for Config {
    fn clone(&self) -> (r: Config)
        ensures
            r@ == self@,
    {
        Config {
            traverse_submodules: self.traverse_submodules,
            generate_preludes: self.generate_preludes,
            generate_imports: self.generate_imports,
            generate_classes: self.generate_classes,
            generate_type_vars: self.generate_type_vars,
            generate_functions: self.generate_functions,
            generate_properties: self.generate_properties,
            generate_docs: self.generate_docs,
            blocklist_names: copy_list(&self.blocklist_names),
            include_private: self.include_private,
            generate_dependencies: self.generate_dependencies,
            suppress_python_stdout: self.suppress_python_stdout,
            suppress_python_stderr: self.suppress_python_stderr,
        }
    }
}

} // verus!
