use ion::attribute::{Entries, ParameterAttribute};
use ion::parameter::Parameter;
use ion::parameters::{accept_args, Argument, Parameters};
use ion::syntax::{Attribute, AttributeMeta, Error, FnArg, Pat, PatIdent, PatType, Place, Receiver, Token};
use ion::this::{ThisKind, ThisParameter};
use ion::types::{GenericArgument, PathArguments, Type, TypePath, TypeReference};

fn path(ident: &str, args: Option<Vec<GenericArgument>>) -> Type {
    Type::Path(TypePath {
        head: vec![],
        ident: ident.to_string(),
        arguments: match args {
            Some(args) => PathArguments::AngleBracketed { turbofish: false, args },
            None => PathArguments::Absent,
        },
    })
}

fn name(ident: &str) -> Type {
    path(ident, None)
}

fn option(ident: &str) -> Type {
    path("Option", Some(vec![GenericArgument::Type(name(ident))]))
}

fn reference(lifetime: Option<&str>, elem: Type) -> Type {
    Type::Reference(TypeReference {
        lifetime: lifetime.map(|l| l.to_string()),
        mutability: false,
        elem: Box::new(elem),
    })
}

fn pat(ident: &str) -> Pat {
    Pat::Ident(PatIdent {
        by_ref: false,
        mutability: false,
        ident: ident.to_string(),
        subpat: None,
        span: Place::CallSite,
    })
}

fn tuple() -> Pat {
    Pat::Other { text: "(a, b)".to_string(), span: Place::CallSite }
}

fn tokens(text: &str) -> Vec<Token> {
    let stream: proc_macro2::TokenStream = text.parse().unwrap();
    stream
        .into_iter()
        .enumerate()
        .map(|(i, tree)| Token {
            text: tree.to_string(),
            joint: matches!(&tree, proc_macro2::TokenTree::Punct(p) if p.spacing() == proc_macro2::Spacing::Joint),
            span: Place::Source(100 + i),
        })
        .collect()
}

fn typed(attributes: &[&str], pat: Pat, ty: Type) -> FnArg {
    FnArg::Typed(PatType {
        attrs: attributes
            .iter()
            .map(|arguments| Attribute {
                path: "ion".to_string(),
                path_span: Place::Source(6),
                meta: AttributeMeta::List { tokens: tokens(arguments), close: Place::Source(7) },
            })
            .collect(),
        pat,
        ty,
        span: Place::CallSite,
    })
}

fn receiver() -> FnArg {
    FnArg::Receiver(Receiver { reference: Some(None), mutability: false, span: Place::CallSite })
}

fn statement(arg: &FnArg, index: usize) -> (String, usize) {
    let mut next = index;
    let parameter = Parameter::checked_from_arg(arg).unwrap().unwrap();
    let text = parameter.to_statement(&mut next).unwrap().text;
    (text, next)
}

#[test]
fn context_and_arguments_are_known_by_their_types() {
    let context = typed(&["nonsense here"], pat("cx"), reference(Some("'a"), name("Context")));
    assert!(matches!(Parameter::from_arg(&context).unwrap(), Parameter::Context(_, _)));
    assert_eq!(statement(&context, 3), ("let cx: &Context = cx;".to_string(), 3));
    let arguments = typed(&[], pat("args"), reference(None, name("Arguments")));
    assert!(matches!(Parameter::from_arg(&arguments).unwrap(), Parameter::Arguments(_, _)));
    assert_eq!(statement(&arguments, 3), ("let args: &Arguments = args;".to_string(), 3));
    assert!(matches!(
        Parameter::from_arg(&typed(&[], pat("cx"), name("Context"))).unwrap(),
        Parameter::Regular { .. }
    ));
    let nested = reference(None, reference(None, name("Context")));
    assert!(matches!(
        Parameter::from_arg(&typed(&[], pat("cx"), nested)).unwrap(),
        Parameter::Regular { .. }
    ));
}

#[test]
fn a_regular_parameter_has_what_its_attributes_ask_for() {
    match Parameter::from_arg(&typed(&["convert = A", "strict, convert = B"], pat("x"), name("u8"))).unwrap() {
        Parameter::Regular { conversion, strict, option, .. } => {
            assert_eq!(conversion, "B");
            assert!(strict);
            assert!(option.is_none());
        }
        other => panic!("{:?}", other),
    }
    match Parameter::from_arg(&typed(&[], pat("x"), name("u8"))).unwrap() {
        Parameter::Regular { conversion, strict, .. } => {
            assert_eq!(conversion, "()");
            assert!(!strict);
        }
        other => panic!("{:?}", other),
    }
}

#[test]
fn an_option_holds_its_last_type() {
    let inner = |ty: Type| match Parameter::from_arg(&typed(&[], pat("x"), ty)).unwrap() {
        Parameter::Regular { option, .. } => option.map(|ty| ty.text()),
        other => panic!("{:?}", other),
    };
    assert_eq!(inner(option("u8")), Some("u8".to_string()));
    assert_eq!(
        inner(path(
            "Option",
            Some(vec![GenericArgument::Type(name("A")), GenericArgument::Type(name("B"))])
        )),
        Some("B".to_string())
    );
    assert_eq!(inner(path("Option", Some(vec![GenericArgument::Lifetime("'a".to_string())]))), None);
    assert_eq!(inner(name("Option")), None);
    assert_eq!(inner(path("Vec", Some(vec![GenericArgument::Type(name("A"))]))), None);
    assert_eq!(inner(path("Vec", Some(vec![]))), None);
}

#[test]
fn an_option_of_nothing_stands_for_nothing() {
    let hollow = || path("Option", Some(vec![]));
    assert!(Parameter::checked_from_arg(&typed(&[], pat("x"), hollow())).is_none());
    assert!(Parameter::checked_from_arg(&typed(&["varargs"], pat("x"), hollow())).is_none());
    assert!(Parameter::checked_from_arg(&typed(&["oops"], pat("x"), hollow())).unwrap().is_err());
    assert!(Parameter::checked_from_arg(&receiver()).is_none());
    assert!(Parameters::checked_parse(&vec![typed(&[], pat("x"), hollow())], None).is_none());
    let after_error = vec![typed(&["oops"], pat("y"), name("u8")), typed(&[], pat("x"), hollow())];
    assert!(Parameters::checked_parse(&after_error, None).unwrap().is_err());
}

#[test]
fn varargs_take_no_index() {
    let varargs = typed(&["varargs, strict"], pat("rest"), path("Vec", Some(vec![GenericArgument::Type(name("u8"))])));
    assert!(matches!(Parameter::from_arg(&varargs).unwrap(), Parameter::VarArgs { strict: true, .. }));
    let (text, next) = statement(&varargs, 4);
    assert!(text.starts_with("let rest: Vec<u8> = args.range(4usize..=args.len())"));
    assert_eq!(next, 4);
}

#[test]
fn a_regular_parameter_takes_one_index() {
    let (text, next) = statement(&typed(&[], pat("x"), reference(Some("'a"), name("str"))), 7);
    assert_eq!(
        text,
        "let x: &str = match args.value(7usize) { ::std::option::Option::Some(value) => \
         <&str as ::ion::conversions::FromValue>::from_value(cx, value, false, ())?, \
         ::std::option::Option::None => return Err(::ion::Error::new(\
         \"Argument x at index 7 was not found.\", ::ion::ErrorKind::Type).into()), };"
    );
    assert_eq!(next, 8);
}

#[test]
fn the_index_moves_on_though_the_statement_is_refused() {
    let parameter = Parameter::from_arg(&typed(&[], Pat::Other { text: "=".to_string(), span: Place::CallSite }, name("u8"))).unwrap();
    let mut index = 0;
    assert!(parameter.to_statement(&mut index).is_err());
    assert_eq!(index, 1);
}

#[test]
fn types_lose_their_lifetimes() {
    let parameter = Parameter::from_arg(&typed(&[], pat("x"), reference(Some("'a"), name("T")))).unwrap();
    assert_eq!(parameter.get_type_without_lifetimes().text(), "&T");
}

#[test]
fn a_function_is_parsed() {
    let args = vec![
        receiver(),
        typed(&[], pat("cx"), reference(None, name("Context"))),
        typed(&[], pat("a"), name("u8")),
        typed(&[], tuple(), option("u8")),
        typed(&[], pat("c"), name("u16")),
        typed(&["varargs"], pat("rest"), name("V")),
    ];
    let class = name("Class");
    let parsed = Parameters::checked_parse(&args, Some(&class)).unwrap().unwrap();
    assert_eq!(parsed.parameters.len(), 5);
    assert_eq!(parsed.nargs, (2, 1));
    assert_eq!(parsed.idents, vec!["cx", "a", "c", "rest"]);
    assert_eq!(parsed.get_this_ident(), Some("self".to_string()));
    let texts: Vec<String> = parsed.to_statements().unwrap().into_iter().map(|s| s.text).collect();
    assert_eq!(texts.len(), 5);
    assert_eq!(texts[0], "let cx: &Context = cx;");
    assert!(texts[1].contains("args.value(0usize)") && texts[1].contains("Argument a at index 0"));
    assert!(texts[2].contains("args.value(1usize)") && texts[2].contains("None => ::std::option::Option::None"));
    assert!(texts[3].contains("args.value(2usize)") && texts[3].contains("Argument c at index 2"));
    assert!(texts[4].contains("args.range(3usize..=args.len())"));
    let inner: Vec<String> = parsed.to_args().into_iter().map(|a| a.text).collect();
    assert_eq!(
        inner,
        vec!["self: &Class", "cx: &Context", "a: u8", "(a, b): Option<u8>", "c: u16", "rest: V"]
    );
    assert_eq!(parsed.checked_to_args().unwrap().len(), 6);
}

#[test]
fn the_first_error_is_given() {
    let args = vec![
        typed(&[], pat("a"), name("u8")),
        typed(&["oops"], pat("b"), name("u8")),
        receiver(),
    ];
    let error = Parameters::checked_parse(&args, None).unwrap().unwrap_err();
    assert_eq!(error.message, "expected one of: `this`, `varargs`, `convert`, `strict`");
    let error = Parameters::checked_parse(&vec![receiver()], None).unwrap().unwrap_err();
    assert_eq!(error.message, "Can only have self on Class Methods");
}

#[test]
fn the_last_receiver_that_binds_a_name_is_kept() {
    let args = vec![
        typed(&["this"], pat("first"), name("A")),
        typed(&["this"], pat("second"), name("B")),
        typed(&["this"], tuple(), name("C")),
        typed(&[], pat("x"), name("u8")),
    ];
    let parsed = Parameters::parse(&args, None).unwrap();
    assert_eq!(parsed.get_this_ident(), Some("second".to_string()));
    assert_eq!(parsed.parameters.len(), 1);
    assert_eq!(parsed.nargs, (1, 0));
}

#[test]
fn what_the_attributes_hold_decides_for_each_argument() {
    let args = vec![typed(&[], pat("a"), name("A")), typed(&[], pat("b"), name("B"))];
    let read: Vec<Vec<Entries>> =
        vec![vec![Ok(vec![ParameterAttribute::This])], vec![Ok(vec![ParameterAttribute::VarArgs])]];
    let parsed = Parameters::from_read(&args, &read, None).unwrap().unwrap();
    assert_eq!(parsed.get_this_ident(), Some("a".to_string()));
    assert!(matches!(parsed.parameters[0], Parameter::VarArgs { .. }));
    assert_eq!(parsed.nargs, (0, 0));
    let broken: Vec<Vec<Entries>> =
        vec![vec![], vec![Err(Error { span: Place::CallSite, message: "broken".to_string() })]];
    let error = Parameters::from_read(&args, &broken, None).unwrap().unwrap_err();
    assert_eq!(error.message, "broken");
}

#[test]
fn no_receiver_needs_no_code() {
    let parsed = Parameters::parse(&vec![], None).unwrap();
    assert_eq!(parsed.to_this_statements(true, true).unwrap(), "");
    assert_eq!(parsed.to_this_statements(false, false).unwrap(), "");
    assert_eq!(parsed.get_this_ident(), None);
    assert_eq!(parsed.to_args().len(), 0);
    assert_eq!(parsed.to_statements().unwrap().len(), 0);
}

#[test]
fn the_code_that_gets_the_receiver() {
    let class = name("Class");
    let parsed = Parameters::parse(&vec![receiver()], Some(&class)).unwrap();
    assert_eq!(
        parsed.to_this_statements(true, false).unwrap(),
        "let mut this = args.this().to_object(cx); \
         let self_: &Class = <Class as ::ion::ClassInitialiser>::get_private(&mut this);"
    );
    assert_eq!(
        parsed.to_this_statements(true, true).unwrap(),
        "let self_: &'static Class; { \
         let mut this2 = this.take().unwrap().take().into(); \
         self_ = ::std::mem::transmute(<Class as ::ion::ClassInitialiser>::get_private(&mut this2)); \
         this = ::std::option::Option::Some(::ion::utils::SendWrapper::new(this2.into_local())); }"
    );
    assert_eq!(
        parsed.to_this_statements(false, true).unwrap(),
        "let self: Class = <Class as ::ion::conversions::FromValue>::from_value(cx, args.this(), true, ())?;"
    );
}

#[test]
fn the_receiver_is_the_first_argument() {
    let with = |kind: ThisKind| Parameters {
        parameters: vec![],
        this: Some((
            ThisParameter { pat: Box::new(pat("object")), ty: Box::new(name("Foo")), kind },
            "object".to_string(),
        )),
        idents: vec![],
        nargs: (0, 0),
    };
    assert_eq!(with(ThisKind::Owned).to_args()[0].text, "object: Foo");
    assert_eq!(
        with(ThisKind::Ref(Some("'a".to_string()), true)).to_args()[0].text,
        "object: &'a mut Foo"
    );
}

#[test]
fn arguments_have_to_parse() {
    let bad = Parameters {
        parameters: vec![Parameter::Context(
            Box::new(Pat::Other { text: "+".to_string(), span: Place::CallSite }),
            Box::new(name("Foo")),
        )],
        this: None,
        idents: vec![],
        nargs: (0, 0),
    };
    assert!(bad.checked_to_args().is_none());
    assert_eq!(bad.to_args()[0].text, "+: Foo");
    assert!(bad.to_statements().is_err());
}

#[test]
fn arguments_are_put_at_the_places_of_their_patterns() {
    let at = |ident: &str, number: usize| {
        Pat::Ident(PatIdent {
            by_ref: false,
            mutability: false,
            ident: ident.to_string(),
            subpat: None,
            span: Place::Source(number),
        })
    };
    let args = vec![
        typed(&["this"], at("object", 31), name("A")),
        typed(&[], at("x", 32), name("u8")),
        typed(&["varargs"], at("rest", 33), name("V")),
    ];
    let written = Parameters::parse(&args, None).unwrap().to_args();
    assert_eq!(written.len(), 3);
    assert!(matches!(written[0].span, Place::Source(31)));
    assert!(matches!(written[1].span, Place::Source(32)));
    assert!(matches!(written[2].span, Place::Source(33)));
    let class = name("Class");
    let written = Parameters::parse(&vec![receiver()], Some(&class)).unwrap().to_args();
    assert!(matches!(written[0].span, Place::CallSite));
}

#[test]
fn arguments_are_accepted_if_each_of_them_fits() {
    let args = || {
        vec![
            Argument { text: "a: A".to_string(), span: Place::CallSite },
            Argument { text: "b: B".to_string(), span: Place::CallSite },
        ]
    };
    assert_eq!(accept_args(args(), &vec![true, true]).unwrap()[1].text, "b: B");
    assert!(accept_args(args(), &vec![true, false]).is_none());
    assert!(accept_args(args(), &vec![false, true]).is_none());
    assert_eq!(accept_args(vec![], &vec![]).unwrap().len(), 0);
}

#[test]
fn arguments_without_a_receiver_are_kept() {
    let args = vec![
        typed(&["strict"], pat("a"), reference(Some("'a"), name("str"))),
        typed(&[], tuple(), option("u8")),
    ];
    let written: Vec<String> =
        Parameters::parse(&args, None).unwrap().to_args().into_iter().map(|a| a.text).collect();
    assert_eq!(written, vec!["a: &'a str", "(a, b): Option<u8>"]);
}

#[test]
fn arguments_one_after_the_other_are_parsed_together() {
    let first = || vec![typed(&["this"], pat("one"), name("A")), typed(&[], pat("a"), name("u8"))];
    let second = || vec![typed(&[], pat("b"), option("u8")), typed(&[], pat("c"), name("u8"))];
    let mut both = first();
    both.extend(second());
    let parsed = Parameters::parse(&both, None).unwrap();
    let a = Parameters::parse(&first(), None).unwrap();
    let b = Parameters::parse(&second(), None).unwrap();
    assert_eq!(parsed.idents, [a.idents, b.idents].concat());
    assert_eq!(parsed.parameters.len(), a.parameters.len() + b.parameters.len());
    assert_eq!(parsed.nargs, (a.nargs.0 + b.nargs.0, a.nargs.1 + b.nargs.1));
    assert_eq!(parsed.nargs, (2, 1));
    assert_eq!(parsed.get_this_ident(), Some("one".to_string()));
    let mut replaced = first();
    replaced.push(typed(&["this"], pat("two"), name("B")));
    assert_eq!(Parameters::parse(&replaced, None).unwrap().get_this_ident(), Some("two".to_string()));
}

#[test]
fn missing_values_are_reported_by_name_and_index() {
    let args = vec![
        typed(&[], pat("a"), name("u8")),
        typed(&[], pat("cx"), reference(None, name("Context"))),
        typed(&[], pat("b"), option("u8")),
        typed(&[], tuple(), name("T")),
        typed(&[], pat("d"), name("u8")),
    ];
    let texts: Vec<String> =
        Parameters::parse(&args, None).unwrap().to_statements().unwrap().into_iter().map(|s| s.text).collect();
    assert!(texts[0].contains("\"Argument a at index 0 was not found.\""));
    assert!(!texts[1].contains("was not found"));
    assert!(!texts[2].contains("was not found"));
    assert!(texts[3].contains("\"Argument at index 2 was not found.\""));
    assert!(texts[4].contains("\"Argument d at index 3 was not found.\""));
}

#[test]
fn statements_are_written_with_the_literals_that_are_given() {
    let args = vec![
        typed(&[], pat("a"), name("u8")),
        typed(&[], pat("cx"), reference(Some("'a"), name("Context"))),
        typed(&["varargs"], pat("rest"), name("V")),
        typed(&[], pat("b"), option("u8")),
        typed(&[], pat("c"), name("u8")),
    ];
    let parsed = Parameters::parse(&args, None).unwrap();
    let literals: Vec<String> = (0..5).map(|i| format!("L{}", i)).collect();
    let texts = parsed.statement_texts(&literals);
    assert_eq!(texts.len(), 5);
    assert!(texts[0].contains("args.value(0usize)") && texts[0].contains("Error::new(L0, "));
    assert_eq!(texts[1], "let cx: &Context = cx;");
    assert!(texts[2].contains("args.range(1usize..=args.len())"));
    assert!(texts[3].contains("args.value(1usize)") && !texts[3].contains("L3"));
    assert!(texts[4].contains("args.value(2usize)") && texts[4].contains("Error::new(L4, "));
    for (i, text) in texts.iter().enumerate() {
        let index = [0, 1, 1, 1, 2][i];
        assert_eq!(&parsed.parameters[i].statement_text(index, &literals[i]), text);
    }
}

#[test]
fn the_first_refused_statement_of_a_function_is_reported() {
    let bad = |text: &str| Pat::Other { text: text.to_string(), span: Place::CallSite };
    let parsed = Parameters::parse(
        &vec![
            typed(&[], pat("a"), name("u8")),
            typed(&[], bad("="), name("u8")),
            typed(&[], bad("(a"), name("u8")),
        ],
        None,
    )
    .unwrap();
    let mut index = 1;
    let first = parsed.parameters[1].to_statement(&mut index).unwrap_err();
    let second = parsed.parameters[2].to_statement(&mut index).unwrap_err();
    assert_ne!(first.message, second.message);
    assert_eq!(parsed.to_statements().unwrap_err().message, first.message);
}

#[test]
fn a_receiver_that_does_not_parse_is_reported() {
    let with = |kind: ThisKind| Parameters {
        parameters: vec![],
        this: Some((
            ThisParameter {
                pat: Box::new(Pat::Other { text: "=".to_string(), span: Place::CallSite }),
                ty: Box::new(name("Foo")),
                kind,
            },
            "x".to_string(),
        )),
        idents: vec![],
        nargs: (0, 0),
    };
    let this = with(ThisKind::Ref(None, false));
    assert!(matches!(this.to_this_statements(true, true).unwrap_err().span, Place::Reported(_)));
    assert!(matches!(this.to_this_statements(true, false).unwrap_err().span, Place::Reported(_)));
    assert!(this.to_this_statements(false, true).is_err());
    let owned = with(ThisKind::Owned);
    assert_eq!(owned.to_this_statements(true, true).unwrap_err().message, "Self cannot be owned on Class Methods");
    assert_eq!(owned.to_this_statements(true, false).unwrap_err().message, "Self cannot be owned on Class Methods");
}
