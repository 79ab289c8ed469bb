use proc_macro2::Span;
use utoipa_gen::deprecated::{get_deprecated, Deprecated};
use utoipa_gen::serde::{
    parse_container, parse_next_lit_str, parse_value, RenameRule, SerdeContainer, SerdeValue,
};
use utoipa_gen::rename_rule::UNEXPECTED_RENAME_RULE;
use utoipa_gen::syntax::{Attribute, Path, PathArguments, PathSegment, Token};

fn ident(name: &str) -> Token {
    Token::Ident(name.to_string())
}

fn eq() -> Token {
    Token::Punct('=')
}

fn lit(text: &str) -> Token {
    Token::Literal(text.to_string(), Span::call_site())
}

fn path(names: &[&str]) -> Path {
    Path {
        leading_colon: false,
        segments: names
            .iter()
            .map(|name| PathSegment {
                ident: name.to_string(),
                ident_span: Span::call_site(),
                arguments: PathArguments::Bare,
            })
            .collect(),
        trailing_colon: false,
    }
}

fn attribute(name: &str, tokens: Vec<Token>) -> Attribute {
    Attribute { path: path(&[name]), args: Ok(tokens) }
}

#[test]
fn literal_values_skip_equal_signs_and_lose_their_quotes() {
    let tokens = vec![ident("rename"), eq(), lit("\"new_name\"")];
    let (text, _) = parse_next_lit_str(&tokens, 1).unwrap();
    assert_eq!(text, "new_name");

    let tokens = vec![eq(), eq(), lit("r#\"a\"b\"#")];
    assert_eq!(parse_next_lit_str(&tokens, 0).unwrap().0, "r#ab#");

    let tokens = vec![Token::Punct(','), lit("\"x\"")];
    assert!(parse_next_lit_str(&tokens, 0).is_none());
    let tokens = vec![eq(), ident("x")];
    assert!(parse_next_lit_str(&tokens, 0).is_none());
    assert!(parse_next_lit_str(&tokens, 2).is_none());
    let tokens = vec![eq(), Token::Group, lit("\"x\"")];
    assert!(parse_next_lit_str(&tokens, 0).is_none());
}

#[test]
fn field_attributes_read_skip_and_the_last_rename() {
    let value = SerdeValue::parse(&[ident("skip")]);
    assert_eq!(value.skip, Some(true));
    assert_eq!(value.rename, None);

    let value = SerdeValue::parse(&[
        ident("rename"),
        eq(),
        lit("\"first\""),
        Token::Punct(','),
        ident("rename"),
        eq(),
        lit("\"second\""),
        Token::Punct(','),
        ident("rename"),
        Token::Punct(','),
    ]);
    assert_eq!(value.skip, None);
    assert_eq!(value.rename.as_deref(), Some("second"));

    let value = SerdeValue::parse(&[ident("default"), Token::Group, ident("r#skip")]);
    assert_eq!(value.skip, None);
    assert_eq!(value.rename, None);
}

#[test]
fn container_attributes_read_rename_all_and_tag() {
    let container = SerdeContainer::parse(&[
        ident("rename_all"),
        eq(),
        lit("\"camelCase\""),
        Token::Punct(','),
        ident("tag"),
        eq(),
        lit("\"type\""),
    ])
    .unwrap();
    assert_eq!(container.rename_all, Some(RenameRule::Camel));
    assert_eq!(container.tag.as_deref(), Some("type"));

    let container = SerdeContainer::parse(&[ident("deny_unknown_fields"), ident("rename_all")]).unwrap();
    assert_eq!(container.rename_all, None);
    assert_eq!(container.tag, None);
}

#[test]
fn container_attributes_refuse_an_unknown_rule() {
    let error = SerdeContainer::parse(&[
        ident("tag"),
        eq(),
        lit("\"type\""),
        ident("rename_all"),
        eq(),
        lit("\"PascalCase\""),
    ])
    .err()
    .unwrap();
    assert_eq!(error.message, UNEXPECTED_RENAME_RULE);
}

#[test]
fn attribute_step_changes_only_what_it_reads() {
    let mut container = SerdeContainer::default();
    let tokens = vec![eq(), lit("\"kebab-case\"")];
    container.parse_attribute("rename_all", &tokens, 0).unwrap();
    assert_eq!(container.rename_all, Some(RenameRule::Kebab));
    container.parse_attribute("other", &tokens, 0).unwrap();
    assert_eq!(container.rename_all, Some(RenameRule::Kebab));
    assert_eq!(container.tag, None);
    container.parse_attribute("tag", &tokens, 0).unwrap();
    assert_eq!(container.tag.as_deref(), Some("kebab-case"));
}

#[test]
fn the_first_serde_attribute_is_read() {
    let attributes = vec![
        attribute("doc", vec![]),
        attribute("serde", vec![ident("skip")]),
        attribute("serde", vec![ident("rename"), eq(), lit("\"x\"")]),
    ];
    let value = parse_value(&attributes).unwrap().unwrap();
    assert_eq!(value.skip, Some(true));
    assert_eq!(value.rename, None);

    let attributes = vec![attribute("doc", vec![]), attribute("schema", vec![ident("skip")])];
    assert!(parse_value(&attributes).unwrap().is_none());
    assert!(parse_container(&attributes).unwrap().is_none());

    let qualified = Attribute { path: path(&["serde", "x"]), args: Ok(vec![ident("skip")]) };
    assert!(parse_value(&[qualified]).unwrap().is_none());
}

#[test]
fn serde_attributes_without_parentheses_are_errors() {
    let broken = Attribute {
        path: path(&["serde"]),
        args: Err(syn::Error::new(Span::call_site(), "expected parentheses")),
    };
    let attributes = [broken];
    let error = parse_value(&attributes).err().unwrap();
    assert_eq!(error.to_string(), "expected parentheses");

    let broken = Attribute {
        path: path(&["serde"]),
        args: Err(syn::Error::new(Span::call_site(), "expected parentheses")),
    };
    let later = attribute("serde", vec![ident("tag"), eq(), lit("\"t\"")]);
    assert!(parse_container(&[broken, later]).is_err());
}

#[test]
fn container_of_the_first_serde_attribute() {
    let attributes = vec![
        attribute("serde", vec![ident("rename_all"), eq(), lit("\"UPPERCASE\"")]),
        attribute("serde", vec![ident("rename_all"), eq(), lit("\"bad\"")]),
    ];
    let container = parse_container(&attributes).unwrap().unwrap();
    assert_eq!(container.rename_all, Some(RenameRule::Upper));

    let attributes = vec![attribute("serde", vec![ident("rename_all"), eq(), lit("\"bad\"")])];
    assert!(parse_container(&attributes).is_err());
}

#[test]
fn deprecated_attribute_is_found() {
    let attributes = vec![attribute("doc", vec![]), attribute("deprecated", vec![])];
    assert_eq!(get_deprecated(&attributes), Some(Deprecated::True));

    let attributes = vec![attribute("doc", vec![]), attribute("serde", vec![])];
    assert_eq!(get_deprecated(&attributes), None);
    assert_eq!(get_deprecated(&[]), None);

    // Attributes whose path is no single identifier are passed over.
    let attributes = vec![
        Attribute { path: path(&["rustfmt", "skip"]), args: Ok(vec![]) },
        attribute("deprecated", vec![]),
    ];
    assert_eq!(get_deprecated(&attributes), Some(Deprecated::True));
    let attributes = vec![Attribute { path: path(&["rustfmt", "skip"]), args: Ok(vec![]) }];
    assert_eq!(get_deprecated(&attributes), None);

    // Attributes after the first `#[deprecated]` are not looked at.
    let attributes = vec![
        attribute("deprecated", vec![]),
        Attribute { path: path(&["a", "b"]), args: Ok(vec![]) },
    ];
    assert_eq!(get_deprecated(&attributes), Some(Deprecated::True));
}

#[test]
fn path_identifiers() {
    assert_eq!(path(&["serde"]).get_ident().map(|s| s.as_str()), Some("serde"));
    assert!(path(&["serde"]).is_ident("serde"));
    assert!(!path(&["serde"]).is_ident("serdes"));
    assert!(path(&["a", "b"]).get_ident().is_none());
    let mut rooted = path(&["serde"]);
    rooted.leading_colon = true;
    assert!(rooted.get_ident().is_none());
    let generic = Path {
        leading_colon: false,
        segments: vec![PathSegment {
            ident: "serde".to_string(),
            ident_span: Span::call_site(),
            arguments: PathArguments::AngleBracketed(vec![]),
        }],
        trailing_colon: false,
    };
    assert!(!generic.is_ident("serde"));
}
