use protobuf::ident::is_rust_keyword;
use protobuf::ident::RustIdent;

#[test]
fn keywords_are_recognized() {
    for kw in ["as", "fn", "match", "Self", "self", "_", "async", "yield", "macro", "box"] {
        assert!(is_rust_keyword(kw), "{}", kw);
    }
    for word in ["", "foo", "Foo", "as_", "matches", "r#fn", "fn ", "Box"] {
        assert!(!is_rust_keyword(word), "{}", word);
    }
}

#[test]
fn ident_round_trips() {
    let id = RustIdent::new("field_name");
    assert_eq!(id.get(), "field_name");
    assert_eq!(id.to_string(), "field_name");
    let copy = id.clone_ident();
    assert_eq!(copy.into_string(), "field_name".to_string());
}

#[test]
fn ident_as_path() {
    let id = RustIdent::new("MyMessage");
    let path = id.to_path();
    assert!(path.path.is_empty());
    assert_eq!(path.ident.get(), "MyMessage");
    assert_eq!(path.to_string(), "MyMessage");
    let rel = id.into_rel_path();
    assert!(!rel.is_empty());
    assert_eq!(rel.to_string(), "MyMessage");
}
