use utoipa_gen::component::{
    resolve_failure, ComponentPart, GenericType, ResolveFailure, TypeToken, ValueType,
};
use proc_macro2::Span;
use utoipa_gen::syntax::{GenericArgument, Path, PathArguments, PathSegment, Type};

fn segment(name: &str, arguments: PathArguments) -> PathSegment {
    PathSegment { ident: name.to_string(), ident_span: Span::call_site(), arguments }
}

fn path_type(segments: Vec<PathSegment>) -> Type {
    Type::Path(Path { leading_colon: false, segments, trailing_colon: false })
}

fn simple(name: &str) -> Type {
    path_type(vec![segment(name, PathArguments::Bare)])
}

fn generic(name: &str, args: Vec<GenericArgument>) -> Type {
    path_type(vec![segment(name, PathArguments::AngleBracketed(args))])
}

#[test]
fn a_plain_type_is_one_part() {
    let ty = simple("String");
    let part = ComponentPart::from_type(&ty);
    assert_eq!(part.ident, "String");
    assert_eq!(part.value_type, ValueType::Primitive);
    assert_eq!(part.generic_type, None);
    assert!(part.child.is_none());

    let ty = simple("Pet");
    let part = ComponentPart::from_type(&ty);
    assert_eq!(part.value_type, ValueType::Object);
    assert!(!part.is_any());

    let ty = simple("Any");
    assert!(ComponentPart::from_type(&ty).is_any());
}

#[test]
fn generic_types_chain_their_first_type_argument() {
    let ty = generic("Option", vec![GenericArgument::Type(generic(
        "Vec",
        vec![GenericArgument::Type(simple("i64"))],
    ))]);
    let part = ComponentPart::from_type(&ty);
    assert_eq!(part.ident, "Option");
    assert_eq!(part.generic_type, Some(GenericType::Option));
    assert_eq!(part.value_type, ValueType::Object);
    let vec = part.child.as_ref().unwrap();
    assert_eq!(vec.ident, "Vec");
    assert_eq!(vec.generic_type, Some(GenericType::Vec));
    let inner = vec.child.as_ref().unwrap();
    assert_eq!(inner.ident, "i64");
    assert_eq!(inner.value_type, ValueType::Primitive);
    assert!(inner.child.is_none());
}

#[test]
fn maps_and_lifetimes() {
    let ty = generic(
        "HashMap",
        vec![GenericArgument::Type(simple("String")), GenericArgument::Type(simple("Pet"))],
    );
    let part = ComponentPart::from_type(&ty);
    assert_eq!(part.generic_type, Some(GenericType::Dictionary));
    assert_eq!(part.child.as_ref().unwrap().ident, "String");

    let ty = generic(
        "Cow",
        vec![GenericArgument::Lifetime, GenericArgument::Type(simple("str"))],
    );
    let part = ComponentPart::from_type(&ty);
    assert_eq!(part.generic_type, Some(GenericType::Cow));
    assert_eq!(part.child.as_ref().unwrap().ident, "str");

    let ty = generic("Wrapper", vec![GenericArgument::Lifetime]);
    let part = ComponentPart::from_type(&ty);
    assert_eq!(part.generic_type, None);
    assert!(part.child.is_none());

    let ty = generic("Vec", vec![]);
    let part = ComponentPart::from_type(&ty);
    assert_eq!(part.generic_type, Some(GenericType::Vec));
    assert!(part.child.is_none());
}

#[test]
fn references_groups_and_qualified_paths() {
    let ty = Type::Reference(Box::new(simple("str")));
    let part = ComponentPart::from_type(&ty);
    assert_eq!(part.ident, "str");
    assert_eq!(part.value_type, ValueType::Primitive);

    let ty = Type::Group(Box::new(Type::Reference(Box::new(simple("u8")))));
    assert_eq!(ComponentPart::from_type(&ty).ident, "u8");

    let ty = path_type(vec![
        segment("std", PathArguments::Bare),
        segment("collections", PathArguments::Bare),
        segment("BTreeMap", PathArguments::AngleBracketed(vec![
            GenericArgument::Type(simple("String")),
            GenericArgument::Type(simple("bool")),
        ])),
    ]);
    let part = ComponentPart::from_type(&ty);
    assert_eq!(part.ident, "BTreeMap");
    assert_eq!(part.generic_type, Some(GenericType::Dictionary));

    let token = TypeToken(generic("Box", vec![GenericArgument::Type(simple("f64"))]));
    let part = token.get_component_part();
    assert_eq!(part.generic_type, Some(GenericType::Box));
    assert_eq!(part.child.as_ref().unwrap().value_type, ValueType::Primitive);
}

#[test]
fn the_innermost_part_is_found_by_name_and_renamed() {
    let ty = generic("Option", vec![GenericArgument::Type(generic(
        "RefCell",
        vec![GenericArgument::Type(simple("Pet"))],
    ))]);
    let new_name = "Animal".to_string();
    let pet = "Pet".to_string();
    let mut part = ComponentPart::from_type(&ty);
    {
        let found = part.find_mut_by_ident(&pet).unwrap();
        assert_eq!(found.ident, "Pet");
        found.update_ident(&new_name);
    }
    let inner = part.child.as_ref().unwrap().child.as_ref().unwrap();
    assert_eq!(inner.ident, "Animal");
    assert_eq!(part.ident, "Option");
    assert!(part.find_mut_by_ident(&new_name).is_some());
    assert!(part.find_mut_by_ident(&pet).is_none());

    let ty = generic("HashMap", vec![GenericArgument::Type(simple("Pet"))]);
    let mut part = ComponentPart::from_type(&ty);
    assert!(part.find_mut_by_ident(&pet).is_none());

    let ty = generic("Vec", vec![GenericArgument::Type(simple("Pet"))]);
    let vec_name = "Vec".to_string();
    let mut part = ComponentPart::from_type(&ty);
    assert!(part.find_mut_by_ident(&vec_name).is_none());
}

#[test]
fn primitive_names() {
    for name in ["String", "str", "char", "bool", "usize", "u8", "u16", "u32", "u64", "u128",
        "isize", "i8", "i16", "i32", "i64", "i128", "f32", "f64"] {
        assert_eq!(ComponentPart::from_type(&simple(name)).value_type, ValueType::Primitive);
    }
    for name in ["Vec", "Option", "Uuid", "string", "u256"] {
        assert_eq!(ComponentPart::from_type(&simple(name)).value_type, ValueType::Object);
    }
}

#[test]
fn types_that_do_not_resolve_say_why() {
    assert!(resolve_failure(&generic("Vec", vec![GenericArgument::Type(simple("u8"))])).is_none());
    assert!(matches!(resolve_failure(&Type::Other), Some(ResolveFailure::UnsupportedType)));
    assert!(matches!(
        resolve_failure(&Type::Reference(Box::new(Type::Other))),
        Some(ResolveFailure::ReferenceToNonPath)
    ));
    assert!(matches!(
        resolve_failure(&Type::Reference(Box::new(Type::Group(Box::new(simple("u8")))))),
        Some(ResolveFailure::ReferenceToNonPath)
    ));
    assert!(matches!(resolve_failure(&path_type(vec![])), Some(ResolveFailure::MissingLastSegment)));
    let trailing = Type::Path(Path {
        leading_colon: false,
        segments: vec![segment("u8", PathArguments::Bare)],
        trailing_colon: true,
    });
    assert!(matches!(resolve_failure(&trailing), Some(ResolveFailure::MissingLastSegment)));
    assert!(matches!(
        resolve_failure(&path_type(vec![segment("Fn", PathArguments::Parenthesized)])),
        Some(ResolveFailure::UnexpectedPathArguments(_))
    ));
    assert!(matches!(
        resolve_failure(&generic("Vec", vec![GenericArgument::Other(Span::call_site()), GenericArgument::Type(simple("u8"))])),
        Some(ResolveFailure::UnexpectedGenericArgument(_))
    ));
    assert!(matches!(
        resolve_failure(&generic("Option", vec![GenericArgument::Type(Type::Other)])),
        Some(ResolveFailure::UnsupportedType)
    ));
    assert!(matches!(
        resolve_failure(&generic("Option", vec![GenericArgument::Lifetime, GenericArgument::Type(
            generic("Vec", vec![GenericArgument::Lifetime, GenericArgument::Other(Span::call_site())])
        )])),
        Some(ResolveFailure::UnexpectedGenericArgument(_))
    ));
}

#[test]
fn steps_of_the_resolution() {
    let inner = simple("Pet");
    let ty = Type::Group(Box::new(Type::Group(Box::new(Type::Reference(Box::new(inner))))));
    let path = ComponentPart::get_type_path(&ty);
    assert_eq!(path.segments.len(), 1);
    assert_eq!(path.segments[0].ident, "Pet");

    let qualified = Path {
        leading_colon: true,
        segments: vec![
            segment("std", PathArguments::Bare),
            segment("collections", PathArguments::Bare),
            segment("HashMap", PathArguments::AngleBracketed(vec![
                GenericArgument::Type(simple("String")),
                GenericArgument::Type(simple("u8")),
            ])),
        ],
        trailing_colon: false,
    };
    let part = ComponentPart::from_type_path(&qualified);
    assert_eq!(part.ident, "HashMap");
    assert_eq!(part.generic_type, Some(GenericType::Dictionary));
    assert_eq!(part.child.as_ref().unwrap().ident, "String");

    let lifetimes = segment("Wrapper", PathArguments::AngleBracketed(vec![GenericArgument::Lifetime]));
    let part = ComponentPart::resolve_component_type(&lifetimes);
    assert_eq!(part.ident, "Wrapper");
    assert!(part.child.is_none());

    let args = vec![GenericArgument::Lifetime, GenericArgument::Type(simple("str"))];
    let ty = ComponentPart::get_generic_arg_type(0, &args);
    assert!(matches!(ty, Type::Path(_)));
}
