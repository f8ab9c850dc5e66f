use ion::attribute::{
    entries_from_list, expression_text, find_this, read_attributes, read_options, Answer, Entries, ParameterAttribute,
};
use ion::syntax::{Attribute, AttributeMeta, Error, Place, Token};

fn tokens(text: &str) -> Vec<Token> {
    let stream: proc_macro2::TokenStream = text.parse().unwrap();
    stream
        .into_iter()
        .enumerate()
        .map(|(i, tree)| Token {
            text: tree.to_string(),
            joint: matches!(&tree, proc_macro2::TokenTree::Punct(p) if p.spacing() == proc_macro2::Spacing::Joint),
            span: Place::Source(100 + i),
        })
        .collect()
}

fn list(path: &str, arguments: &str) -> Attribute {
    Attribute {
        path: path.to_string(),
        path_span: Place::Source(7),
        meta: AttributeMeta::List { tokens: tokens(arguments), close: Place::Source(8) },
    }
}

fn failure() -> Entries {
    Err(Error { span: Place::Source(1), message: "broken".to_string() })
}

#[test]
fn reads_each_entry() {
    let entries = list("ion", "this, varargs, strict, convert = ConversionBehavior::Clamp").entries().unwrap();
    assert_eq!(entries.len(), 4);
    assert!(matches!(entries[0], ParameterAttribute::This));
    assert!(matches!(entries[1], ParameterAttribute::VarArgs));
    assert!(matches!(entries[2], ParameterAttribute::Strict));
    match &entries[3] {
        ParameterAttribute::Convert { conversion } => {
            assert_eq!(conversion, "ConversionBehavior :: Clamp")
        }
        other => panic!("{:?}", other),
    }
}

#[test]
fn reads_no_entries_and_a_trailing_comma() {
    assert_eq!(list("ion", "").entries().unwrap().len(), 0);
    assert_eq!(list("ion", "strict,").entries().unwrap().len(), 1);
}

#[test]
fn reads_a_conversion_with_commas_in_it() {
    let entries = list("ion", "convert = f::<A, B>(1, 2), strict").entries().unwrap();
    assert_eq!(entries.len(), 2);
    assert!(matches!(entries[1], ParameterAttribute::Strict));
}

#[test]
fn refuses_an_unknown_entry() {
    let error = list("ion", "strict, lenient").entries().unwrap_err();
    assert_eq!(error.message, "expected one of: `this`, `varargs`, `convert`, `strict`");
    assert!(matches!(error.span, Place::Source(102)));
    let error = list("ion", ", strict").entries().unwrap_err();
    assert!(matches!(error.span, Place::Source(100)));
}

#[test]
fn an_unknown_entry_comes_before_what_follows_it() {
    let error = list("ion", "lenient, strict varargs").entries().unwrap_err();
    assert_eq!(error.message, "expected one of: `this`, `varargs`, `convert`, `strict`");
    assert!(matches!(error.span, Place::Source(100)));
}

#[test]
fn refuses_entries_without_a_comma() {
    let error = list("ion", "strict varargs").entries().unwrap_err();
    assert_eq!(error.message, "expected `,`");
    assert!(matches!(error.span, Place::Source(101)));
    assert_eq!(list("ion", "varargs(1)").entries().unwrap_err().message, "expected `,`");
    assert_eq!(list("ion", "this = 1").entries().unwrap_err().message, "expected `,`");
    let error = list("ion", "convert = a b").entries().unwrap_err();
    assert_eq!(error.message, "expected `,`");
    assert!(matches!(error.span, Place::Source(103)));
}

#[test]
fn refuses_a_conversion_without_an_expression() {
    let error = list("ion", "convert").entries().unwrap_err();
    assert_eq!(error.message, "expected `=`");
    assert!(matches!(error.span, Place::Source(8)));
    let error = list("ion", "convert, strict").entries().unwrap_err();
    assert_eq!(error.message, "expected `=`");
    assert!(matches!(error.span, Place::Source(101)));
    let error = list("ion", "strict, convert =").entries().unwrap_err();
    assert_eq!(error.message, "unexpected end of input, expected an expression");
    assert!(matches!(error.span, Place::Source(8)));
    let error = list("ion", "convert = , strict").entries().unwrap_err();
    assert_eq!(error.message, "expected an expression");
    assert!(matches!(error.span, Place::Reported(_)));
}

#[test]
fn the_messages_for_tokens_are_those_of_the_parser() {
    assert_eq!(
        syn::parse_str::<syn::Expr>("").unwrap_err().to_string(),
        "unexpected end of input, expected an expression"
    );
    assert_eq!(syn::parse_str::<syn::token::Eq>("").unwrap_err().to_string(), "expected `=`");
    assert_eq!(syn::parse_str::<syn::token::Eq>("a").unwrap_err().to_string(), "expected `=`");
    assert_eq!(syn::parse_str::<syn::token::Comma>("a").unwrap_err().to_string(), "expected `,`");
}

#[test]
fn a_conversion_ends_where_the_answer_says() {
    let tokens = tokens("convert = a + b, strict");
    let answers = |left: usize| {
        let mut answers: Vec<Answer> = (0..tokens.len()).map(|_| Ok(0)).collect();
        answers[2] = Ok(left);
        answers
    };
    let entries = entries_from_list(&tokens, Place::CallSite, &answers(2)).unwrap();
    assert_eq!(entries.len(), 2);
    assert!(matches!(&entries[0], ParameterAttribute::Convert { conversion } if conversion == "a + b"));
    assert!(matches!(entries[1], ParameterAttribute::Strict));
    let entries = entries_from_list(&tokens, Place::CallSite, &answers(0)).unwrap();
    assert!(matches!(&entries[0], ParameterAttribute::Convert { conversion } if conversion == "a + b , strict"));
    let error = entries_from_list(&tokens, Place::CallSite, &answers(3)).unwrap_err();
    assert_eq!(error.message, "expected `,`");
    for left in [5, 6, usize::MAX] {
        let error = entries_from_list(&tokens, Place::CallSite, &answers(left)).unwrap_err();
        assert_eq!(error.message, "expected an expression");
        assert!(matches!(error.span, Place::Source(102)));
    }
    assert!(entries_from_list(&tokens, Place::CallSite, &answers(4)).is_err());
    let mut refused = answers(0);
    refused[2] = Err(Error { span: Place::Source(1), message: "no".to_string() });
    assert_eq!(entries_from_list(&tokens, Place::CallSite, &refused).unwrap_err().message, "no");
}

#[test]
fn refuses_an_attribute_without_parentheses() {
    let bare = Attribute { path: "ion".to_string(), path_span: Place::Source(2), meta: AttributeMeta::Path };
    let error = bare.entries().unwrap_err();
    assert_eq!(error.message, "expected attribute arguments in parentheses: #[ion(...)]");
    assert!(matches!(error.span, Place::Source(2)));
    let value = Attribute {
        path: "ion".to_string(),
        path_span: Place::Source(2),
        meta: AttributeMeta::NameValue(Place::Source(3)),
    };
    let error = value.entries().unwrap_err();
    assert_eq!(error.message, "expected parentheses: #[ion(...)]");
    assert!(matches!(error.span, Place::Source(3)));
}

#[test]
fn the_messages_are_those_of_the_parser() {
    let attributes: Vec<syn::Attribute> = {
        let item: syn::ItemStruct = syn::parse_str("#[ion] #[ion = 1] struct S;").unwrap();
        item.attrs
    };
    let parse = |attribute: &syn::Attribute| attribute.parse_args::<syn::Ident>().unwrap_err().to_string();
    assert_eq!(parse(&attributes[0]), "expected attribute arguments in parentheses: #[ion(...)]");
    assert_eq!(parse(&attributes[1]), "expected parentheses: #[ion(...)]");
}

#[test]
fn only_ion_attributes_are_read() {
    let read = read_attributes(&vec![list("doc", "nonsense here"), list("ion", "strict"), list("a::ion", "x y")]);
    assert_eq!(read.len(), 1);
    assert!(read[0].is_ok());
}

#[test]
fn options_come_from_all_attributes() {
    let options = read_options(&vec![
        Ok(vec![
            ParameterAttribute::Convert { conversion: "a".to_string() },
            ParameterAttribute::Strict,
        ]),
        Ok(vec![
            ParameterAttribute::This,
            ParameterAttribute::Convert { conversion: "b".to_string() },
        ]),
    ])
    .unwrap();
    assert!(!options.vararg);
    assert!(options.strict);
    assert_eq!(options.conversion, Some("b".to_string()));
    let none = read_options(&vec![]).unwrap();
    assert!(!none.vararg && !none.strict && none.conversion.is_none());
    assert!(read_options(&vec![Ok(vec![ParameterAttribute::VarArgs])]).unwrap().vararg);
}

#[test]
fn options_give_the_first_error() {
    let other = Err(Error { span: Place::CallSite, message: "later".to_string() });
    match read_options(&vec![Ok(vec![ParameterAttribute::Strict]), failure(), other]) {
        Err(error) => assert_eq!(error.message, "broken"),
        Ok(_) => panic!(),
    }
}

#[test]
fn this_hides_later_errors() {
    let this = || Ok(vec![ParameterAttribute::Strict, ParameterAttribute::This]);
    assert!(find_this(&vec![this(), failure()]).unwrap());
    assert_eq!(find_this(&vec![failure(), this()]).unwrap_err().message, "broken");
    assert!(!find_this(&vec![Ok(vec![ParameterAttribute::Strict])]).unwrap());
    assert!(!find_this(&vec![]).unwrap());
}

#[test]
fn answers_do_not_matter_without_a_conversion() {
    let tokens = tokens("strict, this,");
    let say = |left: usize| (0..tokens.len()).map(|_| Ok(left)).collect::<Vec<Answer>>();
    for left in 0..4 {
        let entries = entries_from_list(&tokens, Place::CallSite, &say(left)).unwrap();
        assert_eq!(entries.len(), 2);
        assert!(matches!(entries[0], ParameterAttribute::Strict));
        assert!(matches!(entries[1], ParameterAttribute::This));
    }
}

#[test]
fn the_parser_is_asked_for_what_follows_convert() {
    let tokens = tokens("strict, convert = a::b, this");
    for at in 0..tokens.len() + 2 {
        let expected = if at == 4 { Some("a :: b , this".to_string()) } else { None };
        assert_eq!(expression_text(&tokens, at), expected);
    }
    assert_eq!(expression_text(&vec![], 0), None);
}
