//! The statements that read the arguments of a call.
use vstd::prelude::*;

use crate::syntax::{format_pat, Error, ErrorModel, Pat, PatModel, Place};
use crate::text::{bool_literal, decimal, string_literal, usize_literal};
use crate::text::{bool_literal_text, decimal_digits, is_literal_of, usize_literal_text};
use crate::types::{Type, TypeModel};
use crate::views::{lemma_view_all_push, view_all, view_option, view_result};

verus! {

/// A statement of the generated code.
#[derive(Debug)]
pub struct Stmt {
    pub text: String,
}

impl View for Stmt {
    type V = Seq<char>;

    open spec fn view(&self) -> Seq<char> {
        self.text@
    }
}

/// Parses a text as a statement, with `syn::parse_str::<syn::Stmt>`, and returns the error, if there
/// is one, with the place that `syn` reports.
///
/// Trusted: nothing is claimed of the answer. Inside of a macro the compiler splits the text into
/// tokens, and outside of one `proc_macro2` does, and they may differ.
#[verifier::external_body]
pub(crate) fn parse_stmt(text: &str) -> (r: Option<Error>) {
    match syn::parse_str::<syn::Stmt>(text) {
        Ok(_) => None,
        Err(e) => Some(Error { span: Place::Reported(e.span()), message: e.to_string() }),
    }
}

/// The statement with the given text, if there is no error in it.
pub open spec fn accepted(text: Seq<char>, error: Option<ErrorModel>) -> Result<
    Seq<char>,
    ErrorModel,
> {
    match error {
        None => Ok(text),
        Some(e) => Err(e),
    }
}

/// The statement with the given text, if there is no error in it.
pub fn accept(text: String, error: Option<Error>) -> (r: Result<Stmt, Error>)
    ensures
        view_result(r) == accepted(text@, view_option(error)),
{
    match error {
        None => Ok(Stmt { text }),
        Some(e) => Err(e),
    }
}

/// The statement with the given text, if it parses as one, and otherwise the error that the parser
/// reports.
pub fn statement(text: String) -> (r: Result<Stmt, Error>)
    ensures
        exists|error: Option<ErrorModel>| view_result(r) == #[trigger] accepted(text@, error),
{
    let error = parse_stmt(text.as_str());
    accept(text, error)
}

/// The statements with the given texts, or the first error, given the error in each of them, if
/// there is one.
pub open spec fn all_accepted(texts: Seq<Seq<char>>, errors: Seq<Option<ErrorModel>>) -> Result<
    Seq<Seq<char>>,
    ErrorModel,
>
    decreases texts.len(),
{
    if texts.len() == 0 {
        Ok(Seq::empty())
    } else {
        match (
            all_accepted(texts.drop_last(), errors),
            accepted(texts.last(), errors[texts.len() - 1]),
        ) {
            (Err(e), _) => Err(e),
            (Ok(_), Err(e)) => Err(e),
            (Ok(before), Ok(text)) => Ok(before.push(text)),
        }
    }
}

/// What statements are, or the error in the place of them.
pub open spec fn view_statements(r: Result<Vec<Stmt>, Error>) -> Result<
    Seq<Seq<char>>,
    ErrorModel,
> {
    match r {
        Ok(statements) => Ok(view_all(statements@)),
        Err(e) => Err(e@),
    }
}

proof fn lemma_first_refused(
    texts: Seq<Seq<char>>,
    errors: Seq<Option<ErrorModel>>,
    n: int,
)
    requires
        0 <= n <= texts.len(),
        all_accepted(texts.take(n), errors) is Err,
    ensures
        all_accepted(texts, errors) == all_accepted(texts.take(n), errors),
    decreases texts.len(),
{
    if n < texts.len() {
        assert(texts.drop_last().take(n) =~= texts.take(n));
        lemma_first_refused(texts.drop_last(), errors, n);
    } else {
        assert(texts.take(n) =~= texts);
    }
}

/// What the errors in texts are, where there are any.
pub open spec fn view_errors(errors: Seq<Option<Error>>) -> Seq<Option<ErrorModel>> {
    errors.map_values(|e: Option<Error>| view_option(e))
}

/// The statements with the given texts, or the first error, given the error in each of them, if
/// there is one.
pub fn accept_all(texts: &Vec<String>, errors: &Vec<Option<Error>>) -> (r: Result<Vec<Stmt>, Error>)
    requires
        texts@.len() == errors@.len(),
    ensures
        view_statements(r) == all_accepted(view_all(texts@), view_errors(errors@)),
{
    let ghost all = view_all(texts@);
    let ghost said = view_errors(errors@);
    let mut done: Vec<Stmt> = Vec::new();
    let mut i: usize = 0;
    assert(view_all(done@) =~= Seq::empty());
    while i < texts.len()
        invariant
            i <= texts@.len(),
            texts@.len() == errors@.len(),
            all == view_all(texts@),
            said == view_errors(errors@),
            all_accepted(all.take(i as int), said) == Ok::<Seq<Seq<char>>, ErrorModel>(
                view_all(done@),
            ),
        decreases texts@.len() - i,
    {
        assert(all.take(i + 1).drop_last() =~= all.take(i as int));
        assert(said[i as int] == view_option(errors[i as int]));
        match &errors[i] {
            None => {
                let s = Stmt { text: texts[i].clone() };
                proof {
                    lemma_view_all_push(done@, s);
                }
                done.push(s);
            },
            Some(e) => {
                proof {
                    lemma_first_refused(all, said, i + 1);
                }
                return Err(e.clone());
            },
        }
        i += 1;
    }
    assert(all.take(i as int) =~= all);
    Ok(done)
}

/// Asks the parser for the error in each of some texts.
pub(crate) fn ask_for_errors(texts: &Vec<String>) -> (r: Vec<Option<Error>>)
    ensures
        r@.len() == texts@.len(),
{
    let mut errors: Vec<Option<Error>> = Vec::new();
    let mut i: usize = 0;
    while i < texts.len()
        invariant
            i <= texts@.len(),
            errors@.len() == i,
        decreases texts@.len() - i,
    {
        errors.push(parse_stmt(texts[i].as_str()));
        i += 1;
    }
    errors
}

/// The statements with the given texts, or the error that the parser reports in the first that does
/// not parse.
pub fn statements(texts: &Vec<String>) -> (r: Result<Vec<Stmt>, Error>)
    ensures
        exists|errors: Seq<Option<ErrorModel>>|
            view_statements(r) == #[trigger] all_accepted(view_all(texts@), errors),
{
    let errors = ask_for_errors(texts);
    accept_all(texts, &errors)
}

/// A statement and those that follow it in a block, or the first error, given the error in the
/// first and those in the others.
pub open spec fn block_accepted(
    pre: Seq<char>,
    inner: Seq<Seq<char>>,
    error: Option<ErrorModel>,
    errors: Seq<Option<ErrorModel>>,
) -> Result<(Seq<char>, Seq<Seq<char>>), ErrorModel> {
    match (accepted(pre, error), all_accepted(inner, errors)) {
        (Err(e), _) => Err(e),
        (Ok(_), Err(e)) => Err(e),
        (Ok(pre), Ok(inner)) => Ok((pre, inner)),
    }
}

/// What a statement and those that follow it in a block are, or the error in the place of them.
pub open spec fn view_block(r: Result<(Stmt, Vec<Stmt>), Error>) -> Result<
    (Seq<char>, Seq<Seq<char>>),
    ErrorModel,
> {
    match r {
        Ok((pre, inner)) => Ok((pre@, view_all(inner@))),
        Err(e) => Err(e@),
    }
}

/// A statement and those that follow it in a block, or the first error, given the error in the
/// first and those in the others.
pub fn accept_block(
    pre: String,
    inner: &Vec<String>,
    error: Option<Error>,
    errors: &Vec<Option<Error>>,
) -> (r: Result<(Stmt, Vec<Stmt>), Error>)
    requires
        inner@.len() == errors@.len(),
    ensures
        view_block(r) == block_accepted(
            pre@,
            view_all(inner@),
            view_option(error),
            view_errors(errors@),
        ),
{
    let pre = match accept(pre, error) {
        Ok(pre) => pre,
        Err(e) => return Err(e),
    };
    match accept_all(inner, errors) {
        Ok(inner) => Ok((pre, inner)),
        Err(e) => Err(e),
    }
}

/// Texts one after the other, with spaces between them.
pub open spec fn joined(texts: Seq<Seq<char>>) -> Seq<char>
    decreases texts.len(),
{
    if texts.len() == 0 {
        Seq::empty()
    } else if texts.len() == 1 {
        texts[0]
    } else {
        joined(texts.drop_last()) + " "@ + texts.last()
    }
}

/// Writes statements one after the other.
pub fn join(statements: &Vec<Stmt>) -> (r: String)
    ensures
        r@ == joined(view_all(statements@)),
{
    let ghost all = view_all(statements@);
    let mut text = String::new();
    let mut i: usize = 0;
    while i < statements.len()
        invariant
            i <= statements@.len(),
            all == view_all(statements@),
            text@ == joined(all.take(i as int)),
        decreases statements@.len() - i,
    {
        assert(all.take(i + 1).drop_last() =~= all.take(i as int));
        if i > 0 {
            text.append(" ");
        }
        text.append(statements[i].text.as_str());
        i += 1;
    }
    assert(all.take(i as int) =~= all);
    text
}

/// The code of statements, or the error in the place of them.
pub open spec fn code_of(statements: Result<Seq<Seq<char>>, ErrorModel>) -> Result<
    Seq<char>,
    ErrorModel,
> {
    match statements {
        Ok(statements) => Ok(joined(statements)),
        Err(e) => Err(e),
    }
}

/// Writes the code of statements, or passes on the error in the place of them.
pub fn code(statements: Result<Vec<Stmt>, Error>) -> (r: Result<String, Error>)
    ensures
        view_result(r) == code_of(view_statements(statements)),
{
    match statements {
        Ok(statements) => Ok(join(&statements)),
        Err(e) => Err(e),
    }
}

/// The code of a statement and of those that follow it in a block, or the error in the place of
/// them.
pub open spec fn block_code_of(block: Result<(Seq<char>, Seq<Seq<char>>), ErrorModel>) -> Result<
    Seq<char>,
    ErrorModel,
> {
    match block {
        Ok((pre, inner)) => Ok(pre + " { "@ + joined(inner) + " }"@),
        Err(e) => Err(e),
    }
}

/// Writes the code of a statement and of those that follow it in a block, or passes on the error in
/// the place of them.
pub fn block_code(block: Result<(Stmt, Vec<Stmt>), Error>) -> (r: Result<String, Error>)
    ensures
        view_result(r) == block_code_of(view_block(block)),
{
    match block {
        Ok((pre, inner)) => {
            let mut text = pre.text;
            text.append(" { ");
            text.append(join(&inner).as_str());
            text.append(" }");
            Ok(text)
        },
        Err(e) => Err(e),
    }
}

/// `let pattern: Type = `
pub open spec fn binding_text(pat: PatModel, ty: TypeModel) -> Seq<char> {
    "let "@ + pat.text() + ": "@ + ty.text() + " = "@
}

fn binding(pat: &Pat, ty: &Type) -> (r: String)
    ensures
        r@ == binding_text(pat@, ty@),
{
    let mut text = "let ".to_owned();
    text.append(pat.text().as_str());
    text.append(": ");
    text.append(ty.text().as_str());
    text.append(" = ");
    text
}

/// The statement that binds a pattern to a variable of the call.
pub open spec fn variable_text(pat: PatModel, ty: TypeModel, variable: Seq<char>) -> Seq<char> {
    binding_text(pat, ty) + variable + ";"@
}

/// Writes the statement that binds a pattern to a variable of the call.
pub fn variable_param_text(pat: &Pat, ty: &Type, variable: &str) -> (r: String)
    ensures
        r@ == variable_text(pat@, ty@, variable@),
{
    let mut text = binding(pat, ty);
    text.append(variable);
    text.append(";");
    text
}

/// The message for an argument that is missing.
pub open spec fn not_found_message(name: Option<Seq<char>>, index: nat) -> Seq<char> {
    match name {
        Some(name) => "Argument "@ + name + " at index "@ + decimal_digits(index)
            + " was not found."@,
        None => "Argument at index "@ + decimal_digits(index) + " was not found."@,
    }
}

/// Writes the message for an argument that is missing.
pub fn not_found_error(pat: &Pat, index: usize) -> (r: String)
    ensures
        r@ == not_found_message(pat@.ident(), index as nat),
{
    match format_pat(pat) {
        Some(name) => {
            let mut text = "Argument ".to_owned();
            text.append(name.as_str());
            text.append(" at index ");
            text.append(decimal(index).as_str());
            text.append(" was not found.");
            text
        },
        None => {
            let mut text = "Argument at index ".to_owned();
            text.append(decimal(index).as_str());
            text.append(" was not found.");
            text
        },
    }
}

/// What takes the place of an argument that is missing: nothing, where the argument is optional,
/// and otherwise the return of an error with the message that the literal holds.
pub open spec fn if_none_text(optional: bool, literal: Seq<char>) -> Seq<char> {
    if optional {
        "::std::option::Option::None"@
    } else {
        "return Err(::ion::Error::new("@ + literal + ", ::ion::ErrorKind::Type).into())"@
    }
}

/// The statement that converts the value of an argument.
pub open spec fn regular_text(
    pat: PatModel,
    ty: TypeModel,
    optional: bool,
    conversion: Seq<char>,
    strict: bool,
    value: Seq<char>,
    literal: Seq<char>,
) -> Seq<char> {
    binding_text(pat, ty) + "match "@ + value + " { ::std::option::Option::Some(value) => <"@
        + ty.text() + " as ::ion::conversions::FromValue>::from_value(cx, value, "@
        + bool_literal_text(strict) + ", "@ + conversion + ")?, ::std::option::Option::None => "@
        + if_none_text(optional, literal) + ", };"@
}

/// Writes the statement that converts the value of an argument. The literal holds the message for
/// an argument that is missing.
pub fn regular_param_text(
    pat: &Pat,
    ty: &Type,
    option: Option<&Type>,
    conversion: &str,
    strict: bool,
    value: &str,
    literal: &str,
) -> (r: String)
    ensures
        r@ == regular_text(pat@, ty@, option is Some, conversion@, strict, value@, literal@),
{
    let if_none = if option.is_some() {
        "::std::option::Option::None".to_owned()
    } else {
        let mut text = "return Err(::ion::Error::new(".to_owned();
        text.append(literal);
        text.append(", ::ion::ErrorKind::Type).into())");
        text
    };
    let mut text = binding(pat, ty);
    text.append("match ");
    text.append(value);
    text.append(" { ::std::option::Option::Some(value) => <");
    text.append(ty.text().as_str());
    text.append(" as ::ion::conversions::FromValue>::from_value(cx, value, ");
    text.append(bool_literal(strict));
    text.append(", ");
    text.append(conversion);
    text.append(")?, ::std::option::Option::None => ");
    text.append(if_none.as_str());
    text.append(", };");
    text
}

/// The statement that converts the value of an argument, which stands at `index` in the call.
/// Where the argument is missing and required, the statement reports its name and its index.
pub fn regular_param_statement(
    index: usize,
    pat: &Pat,
    ty: &Type,
    option: Option<&Type>,
    conversion: &str,
    strict: bool,
    value: &str,
) -> (r: Result<Stmt, Error>)
    ensures
        exists|literal: Seq<char>, error: Option<ErrorModel>|
            is_literal_of(literal, not_found_message(pat@.ident(), index as nat)) && view_result(r)
                == #[trigger] accepted(
                regular_text(pat@, ty@, option is Some, conversion@, strict, value@, literal),
                error,
            ),
{
    let literal = string_literal(not_found_error(pat, index).as_str());
    statement(
        regular_param_text(pat, ty, option, conversion, strict, value, literal.as_str()),
    )
}

/// The statement that converts all the values from `start_index` on.
pub open spec fn varargs_text(
    start_index: nat,
    pat: PatModel,
    ty: TypeModel,
    conversion: Seq<char>,
    strict: bool,
) -> Seq<char> {
    binding_text(pat, ty) + "args.range("@ + usize_literal_text(start_index)
        + "..=args.len()).into_iter().map(|value| { ::ion::conversions::FromValue::from_value(cx, value, "@
        + bool_literal_text(strict) + ", "@ + conversion
        + ") }).collect::<::ion::Result<_>>()?;"@
}

/// Writes the statement that converts all the values from `start_index` on.
pub fn varargs_param_text(
    start_index: usize,
    pat: &Pat,
    ty: &Type,
    conversion: &str,
    strict: bool,
) -> (r: String)
    ensures
        r@ == varargs_text(start_index as nat, pat@, ty@, conversion@, strict),
{
    let mut text = binding(pat, ty);
    text.append("args.range(");
    text.append(usize_literal(start_index).as_str());
    text.append(
        "..=args.len()).into_iter().map(|value| { ::ion::conversions::FromValue::from_value(cx, value, ",
    );
    text.append(bool_literal(strict));
    text.append(", ");
    text.append(conversion);
    text.append(") }).collect::<::ion::Result<_>>()?;");
    text
}

/// The statement that converts all the values from `start_index` on.
pub fn varargs_param_statement(
    start_index: usize,
    pat: &Pat,
    ty: &Type,
    conversion: &str,
    strict: bool,
) -> (r: Result<Stmt, Error>)
    ensures
        exists|error: Option<ErrorModel>|
            view_result(r) == #[trigger] accepted(
                varargs_text(start_index as nat, pat@, ty@, conversion@, strict),
                error,
            ),
{
    statement(varargs_param_text(start_index, pat, ty, conversion, strict))
}

} // verus!
