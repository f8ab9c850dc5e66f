use ion::attribute::ParameterAttribute;
use ion::syntax::{Attribute, AttributeMeta, Error, FnArg, Pat, PatIdent, PatType, Place, Receiver, Token};
use ion::this::{parse_this, ThisKind, ThisParameter};
use ion::types::{PathArguments, Piece, Type, TypePath, TypeReference};

fn name(ident: &str) -> Type {
    Type::Path(TypePath { head: vec![], ident: ident.to_string(), arguments: PathArguments::Absent })
}

fn reference(lifetime: Option<&str>, mutability: bool, elem: Type) -> Type {
    Type::Reference(TypeReference {
        lifetime: lifetime.map(|l| l.to_string()),
        mutability,
        elem: Box::new(elem),
    })
}

fn pat(ident: &str) -> Pat {
    Pat::Ident(PatIdent {
        by_ref: false,
        mutability: false,
        ident: ident.to_string(),
        subpat: None,
        span: Place::Source(5),
    })
}

fn tokens(text: &str) -> Vec<Token> {
    let stream: proc_macro2::TokenStream = text.parse().unwrap();
    stream
        .into_iter()
        .enumerate()
        .map(|(i, tree)| Token {
            text: tree.to_string(),
            joint: matches!(&tree, proc_macro2::TokenTree::Punct(p) if p.spacing() == proc_macro2::Spacing::Joint),
            span: Place::Source(100 + i),
        })
        .collect()
}

fn typed(attributes: &[&str], pat: Pat, ty: Type) -> FnArg {
    FnArg::Typed(PatType {
        attrs: attributes
            .iter()
            .map(|arguments| Attribute {
                path: "ion".to_string(),
                path_span: Place::Source(6),
                meta: AttributeMeta::List { tokens: tokens(arguments), close: Place::Source(7) },
            })
            .collect(),
        pat,
        ty,
        span: Place::Source(9),
    })
}

fn receiver(reference: Option<Option<&str>>, mutability: bool) -> FnArg {
    FnArg::Receiver(Receiver {
        reference: reference.map(|lifetime| lifetime.map(|l| l.to_string())),
        mutability,
        span: Place::Source(8),
    })
}

fn texts(this: &ThisParameter, is_class: bool) -> Vec<String> {
    this.to_statements(is_class).unwrap().into_iter().map(|s| s.text).collect()
}

#[test]
fn a_reference_is_taken_apart() {
    let this = parse_this(
        Box::new(pat("this")),
        Box::new(reference(Some("'a"), true, name("Foo"))),
        true,
        Place::CallSite,
    )
    .unwrap();
    assert_eq!(this.ty.text(), "Foo");
    match &this.kind {
        ThisKind::Ref(lifetime, mutability) => {
            assert_eq!(lifetime, &Some("'a".to_string()));
            assert!(*mutability);
        }
        ThisKind::Owned => panic!(),
    }
}

#[test]
fn a_value_is_taken_outside_of_a_class() {
    let owned = parse_this(Box::new(pat("this")), Box::new(name("Foo")), false, Place::CallSite).unwrap();
    assert!(matches!(owned.kind, ThisKind::Owned));
    assert_eq!(owned.ty.text(), "Foo");
    let error = parse_this(Box::new(pat("this")), Box::new(name("Foo")), true, Place::Source(2)).unwrap_err();
    assert_eq!(error.message, "Invalid type for self");
    assert!(matches!(error.span, Place::Source(2)));
}

#[test]
fn self_is_taken_in_a_class() {
    let class = name("Class");
    let this = ThisParameter::from_arg(&receiver(Some(Some("'a")), true), Some(&class)).unwrap().unwrap();
    assert!(this.pat.is_self());
    assert_eq!(this.ty.text(), "Class");
    assert!(matches!(this.kind, ThisKind::Ref(Some(_), true)));
    assert_eq!(
        texts(&this, true),
        vec![
            "let mut this = args.this().to_object(cx);",
            "let self_: &'a mut Class = <Class as ::ion::ClassInitialiser>::get_private(&mut this);",
        ]
    );
}

#[test]
fn self_needs_a_class_and_a_reference() {
    let error = ThisParameter::from_arg(&receiver(Some(None), false), None).unwrap_err();
    assert_eq!(error.message, "Can only have self on Class Methods");
    assert!(matches!(error.span, Place::Source(8)));
    let error = ThisParameter::from_arg(&receiver(None, false), Some(&name("Class"))).unwrap_err();
    assert_eq!(error.message, "Invalid type for self");
    assert!(matches!(error.span, Place::Source(8)));
    let error = ThisParameter::from_arg(&receiver(None, false), None).unwrap_err();
    assert_eq!(error.message, "Can only have self on Class Methods");
}

#[test]
fn a_class_with_several_bounds_is_taken_without_a_reference() {
    let class = Type::Sum(vec![Piece::Text("dyn A + B".to_string())]);
    let error = ThisParameter::from_arg(&receiver(None, false), Some(&class)).unwrap_err();
    assert_eq!(error.message, "Invalid type for self");
}

#[test]
fn typed_self_has_the_class_type() {
    let class = name("Class");
    let this = ThisParameter::from_arg(&typed(&[], pat("self"), reference(None, false, name("Self"))), Some(&class))
        .unwrap()
        .unwrap();
    assert_eq!(this.ty.text(), "Class");
    let error = ThisParameter::from_arg(&typed(&[], pat("self"), name("Self")), Some(&class)).unwrap_err();
    assert_eq!(error.message, "Invalid type for self");
    assert!(matches!(error.span, Place::Source(9)));
    assert!(ThisParameter::from_arg(&typed(&[], pat("self"), name("Foo")), None).unwrap().is_none());
}

#[test]
fn typed_self_in_a_class_does_not_look_at_attributes() {
    let arg = typed(&["no such thing"], pat("self"), reference(None, true, name("Self")));
    assert!(ThisParameter::from_arg(&arg, Some(&name("Class"))).unwrap().is_some());
    assert!(ThisParameter::from_arg(&arg, None).is_err());
}

#[test]
fn an_argument_is_marked_as_the_receiver() {
    let marked = typed(&["strict", "this"], pat("object"), name("Object"));
    let this = ThisParameter::from_arg(&marked, None).unwrap().unwrap();
    assert!(matches!(this.kind, ThisKind::Owned));
    assert_eq!(
        texts(&this, false),
        vec!["let object: Object = <Object as ::ion::conversions::FromValue>::from_value(cx, args.this(), true, ())?;"]
    );
    let error = ThisParameter::from_arg(&marked, Some(&name("Class"))).unwrap_err();
    assert_eq!(error.message, "Invalid type for self");
    assert!(ThisParameter::from_arg(&typed(&["strict"], pat("x"), name("u8")), None).unwrap().is_none());
}

#[test]
fn a_marked_reference_loses_its_reference() {
    let marked = typed(&["this"], pat("object"), reference(Some("'a"), false, name("Object")));
    let this = ThisParameter::from_arg(&marked, None).unwrap().unwrap();
    assert_eq!(
        texts(&this, false),
        vec!["let object: Object = <Object as ::ion::conversions::FromValue>::from_value(cx, args.this(), true, ())?;"]
    );
    assert_eq!(
        texts(&this, true)[1],
        "let object: &'a Object = <Object as ::ion::ClassInitialiser>::get_private(&mut this);"
    );
}

#[test]
fn what_the_attributes_hold_decides() {
    let arg = typed(&[], pat("x"), name("Foo"));
    let broken = || Err(Error { span: Place::Source(1), message: "broken".to_string() });
    let this = || Ok(vec![ParameterAttribute::This]);
    assert!(ThisParameter::from_read(&arg, &vec![this(), broken()], None).unwrap().is_some());
    let error = ThisParameter::from_read(&arg, &vec![broken(), this()], None).unwrap_err();
    assert_eq!(error.message, "broken");
}

#[test]
fn a_class_method_cannot_own_its_receiver() {
    let owned = ThisParameter { pat: Box::new(pat("object")), ty: Box::new(name("Foo")), kind: ThisKind::Owned };
    let error = owned.to_statements(true).unwrap_err();
    assert_eq!(error.message, "Self cannot be owned on Class Methods");
    assert!(matches!(error.span, Place::Source(5)));
    assert_eq!(owned.to_async_class_statements().unwrap_err().message, "Self cannot be owned on Class Methods");
    let named_self = ThisParameter { pat: Box::new(pat("self")), ty: Box::new(name("Foo")), kind: ThisKind::Owned };
    assert!(matches!(named_self.to_statements(true).unwrap_err().span, Place::CallSite));
    assert!(owned.to_statements(false).is_ok());
}

#[test]
fn an_asynchronous_class_method_declares_its_receiver_first() {
    let class = name("Class");
    let this = ThisParameter::from_arg(&receiver(Some(Some("'a")), true), Some(&class)).unwrap().unwrap();
    let (pre, inner) = this.to_async_class_statements().unwrap();
    assert_eq!(pre.text, "let self_: &'static mut Class;");
    assert_eq!(
        inner.into_iter().map(|s| s.text).collect::<Vec<String>>(),
        vec![
            "let mut this2 = this.take().unwrap().take().into();",
            "self_ = ::std::mem::transmute(<Class as ::ion::ClassInitialiser>::get_private(&mut this2));",
            "this = ::std::option::Option::Some(::ion::utils::SendWrapper::new(this2.into_local()));",
        ]
    );
}

#[test]
fn statements_that_do_not_parse_are_refused() {
    let this = ThisParameter {
        pat: Box::new(Pat::Other { text: "1 +".to_string(), span: Place::CallSite }),
        ty: Box::new(name("Foo")),
        kind: ThisKind::Ref(None, false),
    };
    assert!(this.to_statements(true).is_err());
    assert!(this.to_statements(false).is_err());
    assert!(this.to_async_class_statements().is_err());
}

#[test]
fn a_reference_takes_one_bound() {
    assert!(syn::parse_str::<syn::Type>("&dyn A + B").is_err());
    assert!(syn::parse_str::<syn::Type>("&impl A + B").is_err());
    assert!(syn::parse_str::<syn::Type>("&dyn A").is_ok());
    assert!(syn::parse_str::<syn::Type>("dyn A + B").is_ok());
}
