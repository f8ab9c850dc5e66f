use ion::statement::{
    accept, accept_all, accept_block, block_code, code, join, not_found_error, regular_param_statement, regular_param_text, statement,
    statements, varargs_param_statement, variable_param_text, Stmt,
};
use ion::syntax::{format_pat, get_ident, write_tokens, Error, Pat, PatIdent, Place, Token};
use ion::text::{bool_literal, decimal, usize_literal};
use ion::types::{PathArguments, Type, TypePath};

fn name(ident: &str) -> Type {
    Type::Path(TypePath { head: vec![], ident: ident.to_string(), arguments: PathArguments::Absent })
}

fn pat(ident: &str) -> Pat {
    Pat::Ident(PatIdent {
        by_ref: false,
        mutability: false,
        ident: ident.to_string(),
        subpat: None,
        span: Place::CallSite,
    })
}

fn tuple() -> Pat {
    Pat::Other { text: "(a, b)".to_string(), span: Place::Source(3) }
}

#[test]
fn writes_numbers() {
    assert_eq!(decimal(0), "0");
    assert_eq!(decimal(9), "9");
    assert_eq!(decimal(10), "10");
    assert_eq!(decimal(1234567890), "1234567890");
    assert_eq!(decimal(usize::MAX), usize::MAX.to_string());
    assert_eq!(usize_literal(3), "3usize");
    assert_eq!(bool_literal(true), "true");
    assert_eq!(bool_literal(false), "false");
}

#[test]
fn number_literals_are_those_of_the_token_printer() {
    assert_eq!(usize_literal(42), proc_macro2::Literal::usize_suffixed(42).to_string());
}

#[test]
fn writes_patterns() {
    assert_eq!(pat("x").text(), "x");
    let whole = Pat::Ident(PatIdent {
        by_ref: true,
        mutability: true,
        ident: "x".to_string(),
        subpat: Some("Some(_)".to_string()),
        span: Place::CallSite,
    });
    assert_eq!(whole.text(), "ref mut x @ Some(_)");
    assert_eq!(tuple().text(), "(a, b)");
    assert!(matches!(tuple().span(), Place::Source(3)));
    assert_eq!(whole.clone().text(), whole.text());
}

#[test]
fn names_what_a_pattern_binds() {
    assert_eq!(get_ident(&pat("x")), Some("x".to_string()));
    assert_eq!(get_ident(&tuple()), None);
    assert_eq!(format_pat(&pat("x")), Some("x".to_string()));
    assert!(pat("self").is_self());
    assert!(!pat("this").is_self());
    let mutable = Pat::Ident(PatIdent {
        by_ref: false,
        mutability: true,
        ident: "self".to_string(),
        subpat: None,
        span: Place::CallSite,
    });
    assert!(!mutable.is_self());
    assert!(!tuple().is_self());
}

#[test]
fn names_a_missing_argument() {
    assert_eq!(not_found_error(&pat("count"), 2), "Argument count at index 2 was not found.");
    assert_eq!(not_found_error(&tuple(), 12), "Argument at index 12 was not found.");
}

#[test]
fn a_required_argument_returns_an_error() {
    let written = regular_param_statement(1, &pat("n"), &name("u32"), None, "()", true, "args.value(1usize)").unwrap();
    assert_eq!(
        written.text,
        "let n: u32 = match args.value(1usize) { ::std::option::Option::Some(value) => \
         <u32 as ::ion::conversions::FromValue>::from_value(cx, value, true, ())?, \
         ::std::option::Option::None => return Err(::ion::Error::new(\
         \"Argument n at index 1 was not found.\", ::ion::ErrorKind::Type).into()), };"
    );
}

#[test]
fn an_optional_argument_is_none() {
    let option = name("u32");
    let written =
        regular_param_statement(0, &tuple(), &name("O"), Some(&option), "c", false, "v").unwrap();
    assert_eq!(
        written.text,
        "let (a, b): O = match v { ::std::option::Option::Some(value) => \
         <O as ::ion::conversions::FromValue>::from_value(cx, value, false, c)?, \
         ::std::option::Option::None => ::std::option::Option::None, };"
    );
}

#[test]
fn the_message_is_written_as_a_string_literal() {
    let written = regular_param_statement(0, &pat("a"), &name("T"), None, "()", false, "v").unwrap();
    let message = not_found_error(&pat("a"), 0);
    assert!(written.text.contains(&proc_macro2::Literal::string(&message).to_string()));
    assert!(written.text.contains("\"Argument a at index 0 was not found.\""));
    assert_eq!(
        regular_param_text(&pat("a"), &name("T"), None, "()", false, "v", "LITERAL"),
        "let a: T = match v { ::std::option::Option::Some(value) => \
         <T as ::ion::conversions::FromValue>::from_value(cx, value, false, ())?, \
         ::std::option::Option::None => return Err(::ion::Error::new(\
         LITERAL, ::ion::ErrorKind::Type).into()), };"
    );
}

#[test]
fn varargs_take_the_values_that_are_left() {
    let written = varargs_param_statement(2, &pat("rest"), &name("V"), "()", false).unwrap();
    assert_eq!(
        written.text,
        "let rest: V = args.range(2usize..=args.len()).into_iter().map(|value| { \
         ::ion::conversions::FromValue::from_value(cx, value, false, ()) \
         }).collect::<::ion::Result<_>>()?;"
    );
}

#[test]
fn variables_are_bound() {
    assert_eq!(variable_param_text(&pat("c"), &name("Context"), "cx"), "let c: Context = cx;");
}

#[test]
fn a_statement_has_to_parse() {
    assert_eq!(statement("let x = 1;".to_string()).unwrap().text, "let x = 1;");
    let error = statement("let = 1;".to_string()).unwrap_err();
    assert!(matches!(error.span, Place::Reported(_)));
    let expected = match syn::parse_str::<syn::Stmt>("let = 1;") {
        Err(e) => e.to_string(),
        Ok(_) => panic!(),
    };
    assert_eq!(error.message, expected);
}

#[test]
fn a_statement_is_accepted_without_an_error() {
    assert_eq!(accept("a".to_string(), None).unwrap().text, "a");
    let error = accept("a".to_string(), Some(Error { span: Place::Source(4), message: "no".to_string() })).unwrap_err();
    assert_eq!(error.message, "no");
    assert!(matches!(error.span, Place::Source(4)));
}

#[test]
fn statements_give_the_first_error() {
    let texts = |all: &[&str]| all.iter().map(|t| t.to_string()).collect::<Vec<String>>();
    let good = statements(&texts(&["let a = 1;", "let b = 2;"])).unwrap();
    assert_eq!(good.len(), 2);
    assert_eq!(join(&good), "let a = 1; let b = 2;");
    let error = statements(&texts(&["let a = 1;", "let = 2;", "let b = ;"])).unwrap_err();
    assert_eq!(error.message, statement("let = 2;".to_string()).unwrap_err().message);
}

#[test]
fn the_first_error_refuses_statements() {
    let texts = || vec!["a".to_string(), "b".to_string(), "c".to_string()];
    let refused = |message: &str| Some(Error { span: Place::CallSite, message: message.to_string() });
    assert_eq!(accept_all(&texts(), &vec![None, refused("x"), refused("y")]).unwrap_err().message, "x");
    let accepted = accept_all(&texts(), &vec![None, None, None]).unwrap();
    assert_eq!(accepted.into_iter().map(|s| s.text).collect::<Vec<String>>(), texts());
    assert_eq!(accept_all(&vec![], &vec![]).unwrap().len(), 0);
}

#[test]
fn writes_tokens_with_spaces_where_they_are_not_joined() {
    let token = |text: &str, joint: bool| Token { text: text.to_string(), joint, span: Place::CallSite };
    let tokens = vec![token("a", false), token(":", true), token(":", false), token("b", false)];
    assert_eq!(write_tokens(&tokens, 0, 4), "a :: b");
    assert_eq!(write_tokens(&tokens, 1, 3), "::");
    assert_eq!(write_tokens(&tokens, 2, 2), "");
}

#[test]
fn joins_statements() {
    assert_eq!(join(&vec![]), "");
    assert_eq!(join(&vec![Stmt { text: "a;".to_string() }]), "a;");
}

#[test]
fn a_message_is_the_value_of_its_literal() {
    for name in ["x", "quote\"", "back\\slash", "a'b", "tab\t", "line\nfeed\r", "nul\u{0}7", "\u{301}", "naïve", "\u{1F600}"] {
        let written = regular_param_statement(4, &pat(name), &self::name("T"), None, "()", false, "v");
        let literal = proc_macro2::Literal::string(&not_found_error(&pat(name), 4)).to_string();
        let value = syn::parse_str::<syn::LitStr>(&literal).unwrap().value();
        assert_eq!(value, format!("Argument {} at index 4 was not found.", name));
        if let Ok(written) = written {
            assert!(written.text.contains(&literal));
        }
    }
}

#[test]
fn a_tuple_is_reported_by_its_index() {
    let written = regular_param_statement(12, &tuple(), &name("T"), None, "()", false, "v").unwrap();
    assert!(written.text.contains("(\"Argument at index 12 was not found.\", "));
}

fn refusal(message: &str) -> Option<Error> {
    Some(Error { span: Place::Source(6), message: message.to_string() })
}

#[test]
fn the_first_error_refuses_a_block() {
    let inner = || vec!["b;".to_string(), "c;".to_string()];
    let accept = |error: Option<Error>, errors: Vec<Option<Error>>| {
        accept_block("a;".to_string(), &inner(), error, &errors)
    };
    let (pre, block) = accept(None, vec![None, None]).unwrap();
    assert_eq!(pre.text, "a;");
    assert_eq!(block.into_iter().map(|s| s.text).collect::<Vec<String>>(), inner());
    let error = accept(refusal("pre"), vec![refusal("x"), None]).unwrap_err();
    assert_eq!(error.message, "pre");
    assert!(matches!(error.span, Place::Source(6)));
    assert_eq!(accept(None, vec![refusal("x"), refusal("y")]).unwrap_err().message, "x");
    assert_eq!(accept(None, vec![None, refusal("y")]).unwrap_err().message, "y");
}

#[test]
fn code_is_written_of_what_came_back() {
    let stmt = |text: &str| Stmt { text: text.to_string() };
    assert_eq!(code(Ok(vec![stmt("a;"), stmt("b;")])).unwrap(), "a; b;");
    assert_eq!(code(Ok(vec![])).unwrap(), "");
    assert_eq!(code(Err(refusal("no").unwrap())).unwrap_err().message, "no");
    assert_eq!(block_code(Ok((stmt("a;"), vec![stmt("b;"), stmt("c;")]))).unwrap(), "a; { b; c; }");
    assert_eq!(block_code(Err(refusal("no").unwrap())).unwrap_err().message, "no");
}
