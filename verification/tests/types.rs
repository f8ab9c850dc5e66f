use ion::types::{GenericArgument, PathArguments, Piece, Type, TypePath, TypeReference};

fn text(s: &str) -> Piece {
    Piece::Text(s.to_string())
}

fn path(head: &str, ident: &str, args: Vec<GenericArgument>) -> Type {
    Type::Path(TypePath {
        head: if head.is_empty() { vec![] } else { vec![text(head)] },
        ident: ident.to_string(),
        arguments: if args.is_empty() {
            PathArguments::Absent
        } else {
            PathArguments::AngleBracketed { turbofish: false, args }
        },
    })
}

fn name(ident: &str) -> Type {
    path("", ident, vec![])
}

fn reference(lifetime: Option<&str>, mutability: bool, elem: Type) -> Type {
    Type::Reference(TypeReference {
        lifetime: lifetime.map(|l| l.to_string()),
        mutability,
        elem: Box::new(elem),
    })
}

#[test]
fn writes_references() {
    assert_eq!(reference(None, false, name("T")).text(), "&T");
    assert_eq!(reference(None, true, name("T")).text(), "&mut T");
    assert_eq!(reference(Some("'a"), false, name("T")).text(), "&'a T");
    assert_eq!(reference(Some("'a"), true, name("T")).text(), "&'a mut T");
}

#[test]
fn writes_paths_with_arguments() {
    let ty = path(
        "std::collections::",
        "HashMap",
        vec![
            GenericArgument::Lifetime("'a".to_string()),
            GenericArgument::Type(name("K")),
            GenericArgument::Other(vec![text("Item = "), Piece::Type(name("V"))]),
        ],
    );
    assert_eq!(ty.text(), "std::collections::HashMap<'a, K, Item = V>");
}

#[test]
fn writes_turbofish_and_parentheses() {
    let turbofish = Type::Path(TypePath {
        head: vec![],
        ident: "Vec".to_string(),
        arguments: PathArguments::AngleBracketed {
            turbofish: true,
            args: vec![GenericArgument::Type(name("u8"))],
        },
    });
    assert_eq!(turbofish.text(), "Vec::<u8>");
    let parentheses = Type::Path(TypePath {
        head: vec![],
        ident: "Fn".to_string(),
        arguments: PathArguments::Parenthesized(vec![
            text("("),
            Piece::Type(name("A")),
            text(") -> "),
            Piece::Type(name("B")),
        ]),
    });
    assert_eq!(parentheses.text(), "Fn(A) -> B");
}

#[test]
fn removes_every_lifetime() {
    let ty = reference(
        Some("'a"),
        true,
        path(
            "",
            "Foo",
            vec![
                GenericArgument::Lifetime("'b".to_string()),
                GenericArgument::Type(reference(Some("'c"), false, name("T"))),
                GenericArgument::Other(vec![
                    text("Item = "),
                    Piece::Type(reference(Some("'d"), false, name("U"))),
                ]),
            ],
        ),
    );
    assert_eq!(ty.text(), "&'a mut Foo<'b, &'c T, Item = &'d U>");
    assert_eq!(ty.without_lifetimes().text(), "&mut Foo<&T, Item = &U>");
}

#[test]
fn removes_lifetimes_with_their_punctuation() {
    let ty = Type::Sum(vec![
        text("dyn "),
        Piece::Type(name("Any")),
        Piece::Lifetime(" + 'static".to_string()),
        text(" + Send"),
    ]);
    assert_eq!(ty.text(), "dyn Any + 'static + Send");
    assert_eq!(ty.without_lifetimes().text(), "dyn Any + Send");
}

#[test]
fn removes_lifetimes_before_the_last_segment() {
    let ty = Type::Path(TypePath {
        head: vec![text("<"), Piece::Type(reference(Some("'a"), false, name("T"))), text(" as Trait>::")],
        ident: "Item".to_string(),
        arguments: PathArguments::Absent,
    });
    assert_eq!(ty.without_lifetimes().text(), "<&T as Trait>::Item");
}

#[test]
fn removing_lifetimes_twice_is_removing_them_once() {
    let ty = reference(Some("'a"), false, path("", "Foo", vec![GenericArgument::Lifetime("'b".to_string())]));
    let once = ty.without_lifetimes();
    assert_eq!(once.text(), "&Foo<>");
    assert_eq!(once.without_lifetimes().text(), "&Foo<>");
}

#[test]
fn replaces_self() {
    let ty = reference(
        Some("'a"),
        false,
        path("", "Rc", vec![GenericArgument::Type(name("Self")), GenericArgument::Type(name("T"))]),
    );
    assert_eq!(ty.with_self(&name("Class")).text(), "&'a Rc<Class, T>");
    assert_eq!(name("Self").with_self(&path("js::", "Class", vec![])).text(), "js::Class");
}

#[test]
fn leaves_what_is_not_self() {
    let class = name("Class");
    let item = path("Self::", "Item", vec![]);
    assert_eq!(item.with_self(&class).text(), "Self::Item");
    let generic = path("", "Self", vec![GenericArgument::Type(name("T"))]);
    assert_eq!(generic.with_self(&class).text(), "Self<T>");
    assert_eq!(name("Other").with_self(&class).text(), "Other");
}

#[test]
fn replaces_self_in_pieces() {
    let ty = Type::Other(vec![text("["), Piece::Type(name("Self")), text("; 4]")]);
    assert_eq!(ty.with_self(&name("Class")).text(), "[Class; 4]");
}

#[test]
fn copies_a_type() {
    let ty = reference(Some("'a"), true, path("a::", "B", vec![GenericArgument::Type(name("C"))]));
    assert_eq!(ty.clone().text(), ty.text());
}
