use pyo3_bindgen_engine::ident::Ident;
use pyo3_bindgen_engine::path::Path;

#[test]
fn path_test_from_rs() {
    let path = Path::from_rs("long::path::to");
    assert_eq!(path.to_rs(), "long::path::to");
    assert_eq!(path.to_py(), "long.path.to");
    assert_eq!(path.into_rs(), "long::path::to");
}

#[test]
fn test_from_rs_leading_colon() {
    let path = Path::from_rs("::long::path::to");
    assert_eq!(path.to_rs(), "::long::path::to");
    assert_eq!(path.to_py(), "long.path.to");
}

#[test]
fn path_test_from_py() {
    let path = Path::from_py("long.path.to");
    assert_eq!(path.to_py(), "long.path.to");
    assert_eq!(path.to_rs(), "long::path::to");
}

#[test]
fn test_from_py_relative() {
    let path = Path::from_py("..long.path.to");
    assert_eq!(path.to_py(), "..long.path.to");
    assert_eq!(path.to_rs(), "super::super::long::path::to");
}

#[test]
fn path_test_from_py_keyword() {
    let path = Path::from_py("mod.struct");
    assert_eq!(path.to_py(), "mod.struct");
    assert_eq!(path.to_rs(), "r#mod::r#struct");
}

#[test]
fn test_name() {
    let path = Path::from_rs("long::path::to");
    assert_eq!(path.name().as_rs(), "to");
}

#[test]
fn test_root() {
    let path = Path::from_rs("long::path::to");
    assert_eq!(path.root().unwrap().to_rs(), "long");
}

#[test]
fn test_parent() {
    let path = Path::from_rs("long::path::to");
    assert_eq!(path.parent().unwrap().to_rs(), "long::path");
}

#[test]
fn path_test_into_syn() {
    let path = Path::from_rs("long::path::to");
    let _syn_path: syn::Path = syn::parse_str(&path.to_rs()).unwrap();
    let _syn_path: syn::Path = syn::parse_str(&path.into_rs()).unwrap();
}

#[test]
fn path_empty_text_is_the_default_path() {
    assert!(Path::from_rs("").is_empty());
    assert!(Path::from_py("").is_empty());
    assert!(Path::default().is_empty());
    assert_eq!(Path::default().to_rs(), "");
    assert_eq!(Path::default().to_py(), "");
    assert!(Path::default().root().is_none());
    assert!(Path::default().parent().is_none());
    assert!(Path::from_rs("one").parent().is_none());
    assert_eq!(Path::from_rs("one").root().unwrap().to_rs(), "one");
}

#[test]
fn path_empty_pieces_are_dropped() {
    assert_eq!(Path::from_rs("a::::b::").to_rs(), "a::b");
    assert_eq!(Path::from_rs("a:::b").to_rs(), "a:::b");
    assert_eq!(Path::from_rs("a:::b").len(), 2);
    assert_eq!(Path::from_py("a..b.").to_py(), "a.b");
    assert_eq!(Path::from_py(".").to_rs(), "super");
}

#[test]
fn path_join_and_concat_append_segments() {
    let a = Path::from_rs("::a::b");
    let b = Path::from_rs("c::d");
    assert_eq!(a.join(&b).to_rs(), "::a::b::c::d");
    assert_eq!(a.concat(&b).to_rs(), "::a::b::c::d");
    assert_eq!(b.join(&Path::default()).to_rs(), "c::d");
    assert_eq!(b.child(&Ident::from_py("type")).to_rs(), "c::d::r#type");
    assert_eq!(Path::from_ident(Ident::from_rs("x")).to_rs(), "x");
    assert_eq!(a.prefix(1).to_rs(), "a");
    assert_eq!(a.segment(1).as_rs(), "b");
}

#[test]
fn path_relative_to_itself() {
    let p = Path::from_py("pkg.mod.Class");
    assert_eq!(p.relative_to(&p, false).to_rs(), "self");
    assert_eq!(p.relative_to(&p, true).to_rs(), "super::Class");
}

#[test]
fn path_relative_to_descendant() {
    let from = Path::from_py("pkg.mod");
    let to = Path::from_py("pkg.mod.sub.Class");
    assert_eq!(from.relative_to(&to, false).to_rs(), "sub::Class");
    assert_eq!(from.relative_to(&to, true).to_rs(), "self::sub::Class");
}

#[test]
fn path_relative_to_counts_ascents() {
    let from = Path::from_py("pkg.a.b.c");
    let to = Path::from_py("pkg.x.y");
    assert_eq!(from.relative_to(&to, false).to_rs(), "super::super::super::x::y");
    assert_eq!(from.relative_to(&to, true).to_rs(), "super::super::super::x::y");
    let other = Path::from_py("other.z");
    assert_eq!(from.relative_to(&other, false).to_rs(), "super::super::super::super::other::z");
    assert_eq!(from.common_prefix(&to), 1);
    assert_eq!(from.common_prefix(&other), 0);
}

#[test]
fn path_relative_to_ancestor() {
    let from = Path::from_py("pkg.a.b");
    let to = Path::from_py("pkg");
    assert_eq!(from.relative_to(&to, false).to_rs(), "super::super");
    assert_eq!(from.relative_to(&to, true).to_rs(), "super::super::super::pkg");
}

#[test]
fn path_equality_and_prefixes() {
    assert!(Path::from_py("a.b") == Path::from_rs("a::b"));
    assert!(Path::from_py("a.b") != Path::from_rs("::a::b"));
    assert!(Path::from_py("a.b") != Path::from_py("a.c"));
    assert!(Path::from_py("a.b.c").starts_with(&Path::from_py("a.b")));
    assert!(!Path::from_py("a.b").starts_with(&Path::from_py("a.b.c")));
    assert!(Path::from_py("a.b").starts_with(&Path::default()));
    assert!(Path::from_py("a.b").clone().same(&Path::from_py("a.b")));
}

#[test]
fn path_too_long_for_the_parser_is_not_written() {
    let segment = "a".repeat(510);
    let fits = Path::from_py(&format!("{segment}.{segment}"));
    assert_eq!(fits.to_rs().chars().count(), 1022);
    assert_eq!(fits.to_token().unwrap(), format!("{segment}::{segment}"));

    let too_long = Path::from_py(&format!("{segment}.{segment}.b"));
    assert_eq!(too_long.to_rs().chars().count(), 1025);
    match too_long.to_token() {
        Err(e) => assert_eq!(e.message(), "the path is too long"),
        Ok(_) => panic!("a path beyond the limit is not written"),
    }

    let nested = format!("a{}{}", "<a".repeat(100_000), ">".repeat(100_000));
    assert!(Path::from_rs(&nested).to_token().is_err());
}
