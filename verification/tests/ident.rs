use pyo3_bindgen_engine::ident::Ident;

#[test]
fn ident_test_from_rs() {
    let ident = Ident::from_rs("ident");
    assert_eq!(ident.as_rs(), "ident");
    assert_eq!(ident.as_py(), "ident");
    assert_eq!(ident.into_rs(), "ident");
}

#[test]
fn ident_test_from_py() {
    let ident = Ident::from_py("ident");
    assert_eq!(ident.as_rs(), "ident");
    assert_eq!(ident.as_py(), "ident");
}

#[test]
fn ident_test_from_py_keyword() {
    let ident = Ident::from_py("struct");
    assert_eq!(ident.as_rs(), "r#struct");
    assert_eq!(ident.as_py(), "struct");
}

#[test]
fn ident_test_into_syn() {
    let ident = Ident::from_rs("ident");
    assert!(ident.is_valid_rs());
    let _syn_ident: syn::Ident = syn::parse_str(ident.as_rs()).unwrap();
    let _syn_ident: syn::Ident = syn::parse_str(&ident.into_rs()).unwrap();
}

#[test]
fn ident_reserved_words_are_escaped() {
    assert_eq!(Ident::from_py("self").as_rs(), "r#self");
    assert_eq!(Ident::from_py("_").as_rs(), "r#_");
    assert_eq!(Ident::from_py("type").as_rs(), "r#type");
    assert_eq!(Ident::from_py("not an ident").as_rs(), "r#not an ident");
    assert_eq!(Ident::from_py("new2").as_rs(), "new2");
    assert!(!Ident::from_py("self").is_valid_rs());
    assert!(Ident::from_py("struct").is_valid_rs());
}

#[test]
fn ident_rs_as_py_strips_one_prefix() {
    assert_eq!(Ident::rs_as_py("r#r#x"), "r#x");
    assert_eq!(Ident::rs_as_py("r#"), "");
    assert_eq!(Ident::rs_as_py("r"), "r");
    assert_eq!(Ident::rs_as_py(""), "");
    assert_eq!(Ident::py_to_rs("match"), "r#match");
    assert_eq!(Ident::py_to_rs("matches"), "matches");
}

#[test]
fn ident_equality_is_by_python_spelling() {
    assert!(Ident::from_py("struct") == Ident::from_rs("struct"));
    assert!(Ident::from_py("a") != Ident::from_py("b"));
    assert!(Ident::from_py("struct").same(&Ident::from_rs("r#struct")));
    assert!(Ident::from_py("struct").is_rs("r#struct"));
    assert!(Ident::from_py("struct").is_py("struct"));
    assert!(!Ident::from_py("struct").is_py("r#struct"));
    let copy = Ident::from_py("struct").clone();
    assert_eq!(copy.as_rs(), "r#struct");
}

#[test]
fn ident_too_long_for_the_parser_is_no_identifier() {
    let longest = "a".repeat(1024);
    let id = Ident::from_py(&longest);
    assert_eq!(id.as_rs(), longest);
    assert!(id.is_valid_rs());
    assert_eq!(id.to_token().unwrap(), longest);

    let too_long = "a".repeat(1025);
    let id = Ident::from_rs(&too_long);
    assert!(!id.is_valid_rs());
    match id.to_token() {
        Err(e) => assert_eq!(e.message(), "the name is too long"),
        Ok(_) => panic!("a name beyond the limit is no identifier"),
    }
    assert_eq!(Ident::from_py(&too_long).as_rs(), format!("r#{too_long}"));

    let nested = format!("{}{}", "(".repeat(200_000), ")".repeat(200_000));
    assert!(!Ident::from_rs(&nested).is_valid_rs());
    assert!(Ident::from_rs(&nested).to_token().is_err());
    assert_eq!(Ident::from_py(&nested).as_py(), nested);
}
