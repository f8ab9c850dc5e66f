//! The `#[ion(...)]` attributes of an argument.
use syn::parse::Parser;
use vstd::prelude::*;

use crate::syntax::{
    tokens_text, write_tokens, ArgModel, Attribute, AttributeMeta, AttributeModel, Error,
    ErrorModel, FnArg, MetaModel, Place, Token, TokenModel,
};
use crate::text::text_is;
use crate::views::{lemma_view_all_push, view_all, view_option, view_result};

verus! {

/// One entry of an `#[ion(...)]` attribute.
#[derive(Debug)]
pub enum ParameterAttribute {
    /// `this`: the argument is the receiver of the call.
    This,
    /// `varargs`: the argument takes all the values that are left.
    VarArgs,
    /// `convert = expression`: the expression says how the value is converted.
    Convert { conversion: String },
    /// `strict`: the value is not coerced.
    Strict,
}

/// What a [`ParameterAttribute`] is.
pub enum EntryModel {
    This,
    VarArgs,
    Convert(Seq<char>),
    Strict,
}

impl View for ParameterAttribute {
    type V = EntryModel;

    open spec fn view(&self) -> EntryModel {
        match self {
            ParameterAttribute::This => EntryModel::This,
            ParameterAttribute::VarArgs => EntryModel::VarArgs,
            ParameterAttribute::Convert { conversion } => EntryModel::Convert(conversion@),
            ParameterAttribute::Strict => EntryModel::Strict,
        }
    }
}

/// The entries of one attribute, or the error in it.
pub type Entries = Result<Vec<ParameterAttribute>, Error>;

/// What [`Entries`] are.
pub type EntriesModel = Result<Seq<EntryModel>, ErrorModel>;

/// What the entries of an attribute are.
pub open spec fn view_entries(e: Entries) -> EntriesModel {
    match e {
        Ok(entries) => Ok(view_all(entries@)),
        Err(e) => Err(e@),
    }
}

/// What the entries of each of some attributes are.
pub open spec fn view_each(s: Seq<Entries>) -> Seq<EntriesModel> {
    s.map_values(|e: Entries| view_entries(e))
}

/// What is said of the tokens that an expression begins: how many of them are left when it ends, or
/// the error in it.
pub type Answer = Result<usize, Error>;

/// What an [`Answer`] is.
pub type AnswerModel = Result<nat, ErrorModel>;

/// What answers are.
pub open spec fn view_answers(s: Seq<Answer>) -> Seq<AnswerModel> {
    s.map_values(
        |a: Answer|
            match a {
                Ok(left) => Ok::<nat, ErrorModel>(left as nat),
                Err(e) => Err(e@),
            },
    )
}

/// Parses the expression that a text begins with, with `syn::parse::Parser::parse_str`: the parser
/// of `syn::Expr` comes first, and that of `proc_macro2::TokenStream`, which takes all, after it.
/// Returns how many tokens are left, or the error with the place that `syn` reports.
///
/// Trusted: nothing is claimed of the answer. Inside of a macro the compiler splits the text into
/// tokens, and outside of one `proc_macro2` does, and they may differ.
#[verifier::external_body]
pub(crate) fn parse_expr(text: &str) -> (r: Answer) {
    let parser = |input: syn::parse::ParseStream| {
        input.parse::<syn::Expr>()?;
        input.parse::<proc_macro2::TokenStream>()
    };
    match parser.parse_str(text) {
        Ok(left) => Ok(left.into_iter().count()),
        Err(e) => Err(Error { span: Place::Reported(e.span()), message: e.to_string() }),
    }
}

/// The message for an entry that is none of the known ones.
pub open spec fn unknown_entry() -> Seq<char> {
    "expected one of: `this`, `varargs`, `convert`, `strict`"@
}

/// The error where something else is expected at a position: at the token there, or at the
/// closing parenthesis where there is none.
pub open spec fn expected(
    tokens: Seq<TokenModel>,
    close: Place,
    at: int,
    what: Seq<char>,
) -> ErrorModel {
    ErrorModel {
        span: if at < tokens.len() {
            tokens[at].span
        } else {
            close
        },
        message: what,
    }
}

/// The token at a position is there and has the given text.
pub open spec fn token_is(tokens: Seq<TokenModel>, at: int, text: Seq<char>) -> bool {
    at < tokens.len() && tokens[at].text == text
}

/// An expression that starts at a position is asked for: `convert =` stands before it.
pub open spec fn starts_expression(tokens: Seq<TokenModel>, at: int) -> bool {
    2 <= at < tokens.len() && token_is(tokens, at - 2, "convert"@) && token_is(tokens, at - 1, "="@)
}

/// The entry at a position, with the position after it. The answers are those for expressions that
/// start at each position.
pub open spec fn entry_at(
    tokens: Seq<TokenModel>,
    close: Place,
    answers: Seq<AnswerModel>,
    at: int,
) -> Result<(EntryModel, int), ErrorModel> {
    if token_is(tokens, at, "this"@) {
        Ok((EntryModel::This, at + 1))
    } else if token_is(tokens, at, "varargs"@) {
        Ok((EntryModel::VarArgs, at + 1))
    } else if token_is(tokens, at, "convert"@) {
        if !token_is(tokens, at + 1, "="@) {
            Err(expected(tokens, close, at + 1, "expected `=`"@))
        } else if at + 2 >= tokens.len() {
            Err(
                expected(
                    tokens,
                    close,
                    at + 2,
                    "unexpected end of input, expected an expression"@,
                ),
            )
        } else {
            match answers[at + 2] {
                Ok(left) => if left < tokens.len() - (at + 2) {
                    let end = tokens.len() - left;
                    Ok((EntryModel::Convert(tokens_text(tokens.subrange(at + 2, end))), end))
                } else {
                    Err(expected(tokens, close, at + 2, "expected an expression"@))
                },
                Err(e) => Err(e),
            }
        }
    } else if token_is(tokens, at, "strict"@) {
        Ok((EntryModel::Strict, at + 1))
    } else {
        Err(expected(tokens, close, at, unknown_entry()))
    }
}

/// The entries from a position on, with commas between them, or the first error.
pub open spec fn entries_from(
    tokens: Seq<TokenModel>,
    close: Place,
    answers: Seq<AnswerModel>,
    at: int,
) -> EntriesModel
    decreases tokens.len() - at,
{
    if at >= tokens.len() {
        Ok(Seq::empty())
    } else {
        match entry_at(tokens, close, answers, at) {
            Err(e) => Err(e),
            Ok((entry, next)) => if next >= tokens.len() {
                Ok(seq![entry])
            } else if tokens[next].text == ","@ {
                after(seq![entry], entries_from(tokens, close, answers, next + 1))
            } else {
                Err(expected(tokens, close, next, "expected `,`"@))
            },
        }
    }
}

/// Entries that stand after others, or the error in them.
pub open spec fn after(before: Seq<EntryModel>, entries: EntriesModel) -> EntriesModel {
    match entries {
        Ok(entries) => Ok(before + entries),
        Err(e) => Err(e),
    }
}

/// The entries in a list of tokens, or the first error.
pub open spec fn list_entries(
    tokens: Seq<TokenModel>,
    close: Place,
    answers: Seq<AnswerModel>,
) -> EntriesModel {
    entries_from(tokens, close, answers, 0)
}

impl AttributeModel {
    pub open spec fn is_ion(self) -> bool {
        self.path == "ion"@
    }

    /// The attribute can be read as holding the entries, or the error: it can be read in more than
    /// one way where it holds an expression, which the answers of a parser delimit.
    pub open spec fn reads(self, entries: EntriesModel) -> bool {
        match self.meta {
            MetaModel::Path => entries == Err::<Seq<EntryModel>, _>(
                ErrorModel {
                    span: self.path_span,
                    message: "expected attribute arguments in parentheses: #["@ + self.path
                        + "(...)]"@,
                },
            ),
            MetaModel::NameValue(equals) => entries == Err::<Seq<EntryModel>, _>(
                ErrorModel {
                    span: equals,
                    message: "expected parentheses: #["@ + self.path + "(...)]"@,
                },
            ),
            MetaModel::List { tokens, close } => exists|answers: Seq<AnswerModel>|
                entries == #[trigger] list_entries(tokens, close, answers),
        }
    }
}

/// Each `#[ion(...)]` attribute, in order, can be read as holding what is given for it.
pub open spec fn attributes_read(attrs: Seq<AttributeModel>, read: Seq<EntriesModel>) -> bool
    decreases attrs.len(),
{
    if attrs.len() == 0 {
        read.len() == 0
    } else if attrs.last().is_ion() {
        read.len() > 0 && attrs.last().reads(read.last()) && attributes_read(
            attrs.drop_last(),
            read.drop_last(),
        )
    } else {
        attributes_read(attrs.drop_last(), read)
    }
}

/// All the entries, or the first error.
pub open spec fn all_entries(s: Seq<EntriesModel>) -> EntriesModel
    decreases s.len(),
{
    if s.len() == 0 {
        Ok(Seq::empty())
    } else {
        match (all_entries(s.drop_last()), s.last()) {
            (Err(e), _) => Err(e),
            (Ok(_), Err(e)) => Err(e),
            (Ok(before), Ok(entries)) => Ok(before + entries),
        }
    }
}

/// Whether `this` is among the entries, if it stands before the first error; otherwise the first
/// error, if there is one.
pub open spec fn marks_this(s: Seq<EntriesModel>) -> Result<bool, ErrorModel>
    decreases s.len(),
{
    if s.len() == 0 {
        Ok(false)
    } else {
        match marks_this(s.drop_last()) {
            Err(e) => Err(e),
            Ok(true) => Ok(true),
            Ok(false) => match s.last() {
                Err(e) => Err(e),
                Ok(entries) => Ok(entries.contains(EntryModel::This)),
            },
        }
    }
}

/// The expression of the last `convert` entry.
pub open spec fn last_conversion(entries: Seq<EntryModel>) -> Option<Seq<char>>
    decreases entries.len(),
{
    if entries.len() == 0 {
        None
    } else {
        match entries.last() {
            EntryModel::Convert(conversion) => Some(conversion),
            _ => last_conversion(entries.drop_last()),
        }
    }
}

fn is_token(tokens: &Vec<Token>, at: usize, text: &str) -> (r: bool)
    ensures
        r == token_is(view_all(tokens@), at as int, text@),
{
    at < tokens.len() && text_is(&tokens[at].text, text)
}

fn expected_error(tokens: &Vec<Token>, close: Place, at: usize, what: &str) -> (r: Error)
    ensures
        r@ == expected(view_all(tokens@), close, at as int, what@),
{
    let span = if at < tokens.len() {
        tokens[at].span
    } else {
        close
    };
    Error::new(span, what)
}

/// The entry at a position, with the position after it.
fn read_entry(tokens: &Vec<Token>, close: Place, answers: &Vec<Answer>, at: usize) -> (r: Result<
    (ParameterAttribute, usize),
    Error,
>)
    requires
        at < tokens@.len(),
        answers@.len() == tokens@.len(),
    ensures
        (match r {
            Ok((entry, next)) => Ok((entry@, next as int)),
            Err(e) => Err(e@),
        }) == entry_at(view_all(tokens@), close, view_answers(answers@), at as int),
        r matches Ok((_, next)) ==> at < next <= tokens@.len(),
{
    let len: usize = tokens.len();
    if is_token(tokens, at, "this") {
        Ok((ParameterAttribute::This, at + 1))
    } else if is_token(tokens, at, "varargs") {
        Ok((ParameterAttribute::VarArgs, at + 1))
    } else if is_token(tokens, at, "convert") {
        if !is_token(tokens, at + 1, "=") {
            return Err(expected_error(tokens, close, at + 1, "expected `=`"));
        }
        let start: usize = at + 2;
        if start == len {
            return Err(
                expected_error(
                    tokens,
                    close,
                    start,
                    "unexpected end of input, expected an expression",
                ),
            );
        }
        assert(view_answers(answers@)[start as int] == match answers[start as int] {
            Ok(left) => Ok::<nat, ErrorModel>(left as nat),
            Err(e) => Err(e@),
        });
        let left: usize = match &answers[start] {
            Ok(left) => *left,
            Err(e) => return Err(e.clone()),
        };
        if left >= len - start {
            return Err(expected_error(tokens, close, start, "expected an expression"));
        }
        let end: usize = len - left;
        Ok((ParameterAttribute::Convert { conversion: write_tokens(tokens, start, end) }, end))
    } else if is_token(tokens, at, "strict") {
        Ok((ParameterAttribute::Strict, at + 1))
    } else {
        Err(
            expected_error(
                tokens,
                close,
                at,
                "expected one of: `this`, `varargs`, `convert`, `strict`",
            ),
        )
    }
}

/// The entries in a list of tokens, given the answers for expressions that start at each position.
pub fn entries_from_list(tokens: &Vec<Token>, close: Place, answers: &Vec<Answer>) -> (r: Entries)
    requires
        answers@.len() == tokens@.len(),
    ensures
        view_entries(r) == list_entries(view_all(tokens@), close, view_answers(answers@)),
{
    let ghost all = view_all(tokens@);
    let ghost said = view_answers(answers@);
    let mut entries: Vec<ParameterAttribute> = Vec::new();
    let mut at: usize = 0;
    assert(view_all(entries@) =~= Seq::empty());
    proof {
        if list_entries(all, close, said) is Ok {
            assert(view_all(entries@) + list_entries(all, close, said)->Ok_0
                =~= list_entries(all, close, said)->Ok_0);
        }
    }
    while at < tokens.len()
        invariant
            at <= tokens@.len(),
            answers@.len() == tokens@.len(),
            all == view_all(tokens@),
            said == view_answers(answers@),
            list_entries(all, close, said) == after(
                view_all(entries@),
                entries_from(all, close, said, at as int),
            ),
        decreases tokens@.len() - at,
    {
        let (entry, next) = match read_entry(tokens, close, answers, at) {
            Ok(read) => read,
            Err(e) => return Err(e),
        };
        let ghost before = view_all(entries@);
        proof {
            lemma_view_all_push(entries@, entry);
            assert(before + seq![entry@] =~= before.push(entry@));
        }
        entries.push(entry);
        if next == tokens.len() {
            return Ok(entries);
        }
        if !is_token(tokens, next, ",") {
            return Err(expected_error(tokens, close, next, "expected `,`"));
        }
        at = next + 1;
        proof {
            let rest = entries_from(all, close, said, at as int);
            if rest is Ok {
                assert(before + (seq![entry@] + rest->Ok_0) =~= before.push(entry@) + rest->Ok_0);
            }
        }
    }
    assert(view_all(entries@) + Seq::<EntryModel>::empty() =~= view_all(entries@));
    Ok(entries)
}

/// What the parser is asked about an expression that starts at a position: the tokens from there to
/// the end.
pub fn expression_text(tokens: &Vec<Token>, at: usize) -> (r: Option<String>)
    ensures
        view_option(r) == (if starts_expression(view_all(tokens@), at as int) {
            Some(
                tokens_text(view_all(tokens@).subrange(at as int, tokens@.len() as int)),
            )
        } else {
            None
        }),
{
    if 2 <= at && at < tokens.len() && is_token(tokens, at - 2, "convert") && is_token(
        tokens,
        at - 1,
        "=",
    ) {
        Some(write_tokens(tokens, at, tokens.len()))
    } else {
        None
    }
}

/// Asks for each expression where it ends. Where none starts, the answer is that no token is left.
fn ask_for_expressions(tokens: &Vec<Token>) -> (r: Vec<Answer>)
    ensures
        r@.len() == tokens@.len(),
        forall|i: int|
            0 <= i < tokens@.len() && !starts_expression(view_all(tokens@), i)
                ==> #[trigger] r@[i] == Ok::<usize, Error>(0),
{
    let mut answers: Vec<Answer> = Vec::new();
    let mut i: usize = 0;
    while i < tokens.len()
        invariant
            i <= tokens@.len(),
            answers@.len() == i,
            forall|k: int|
                0 <= k < i && !starts_expression(view_all(tokens@), k) ==> #[trigger] answers@[k]
                    == Ok::<usize, Error>(0),
        decreases tokens@.len() - i,
    {
        match expression_text(tokens, i) {
            Some(text) => answers.push(parse_expr(text.as_str())),
            None => answers.push(Ok(0)),
        }
        i += 1;
    }
    answers
}

impl Attribute {
    pub fn is_ion(&self) -> (r: bool)
        ensures
            r == self@.is_ion(),
    {
        text_is(&self.path, "ion")
    }

    /// The entries of the attribute, or the error in it.
    pub fn entries(&self) -> (r: Entries)
        ensures
            self@.reads(view_entries(r)),
    {
        match &self.meta {
            AttributeMeta::Path => {
                let mut message = "expected attribute arguments in parentheses: #[".to_owned();
                message.append(self.path.as_str());
                message.append("(...)]");
                Err(Error { span: self.path_span, message })
            },
            AttributeMeta::NameValue(equals) => {
                let mut message = "expected parentheses: #[".to_owned();
                message.append(self.path.as_str());
                message.append("(...)]");
                Err(Error { span: *equals, message })
            },
            AttributeMeta::List { tokens, close } => {
                let answers = ask_for_expressions(tokens);
                entries_from_list(tokens, *close, &answers)
            },
        }
    }
}

/// Reads each `#[ion(...)]` attribute, in order.
pub fn read_attributes(attrs: &Vec<Attribute>) -> (r: Vec<Entries>)
    ensures
        attributes_read(view_all(attrs@), view_each(r@)),
{
    let ghost all = view_all(attrs@);
    let mut read: Vec<Entries> = Vec::new();
    let mut i: usize = 0;
    while i < attrs.len()
        invariant
            i <= attrs@.len(),
            all == view_all(attrs@),
            attributes_read(all.take(i as int), view_each(read@)),
        decreases attrs@.len() - i,
    {
        assert(all.take(i + 1).drop_last() =~= all.take(i as int));
        if attrs[i].is_ion() {
            let entries = attrs[i].entries();
            proof {
                let more = view_each(read@.push(entries));
                assert(more.drop_last() =~= view_each(read@));
                assert(more.last() == view_entries(entries));
            }
            read.push(entries);
        }
        i += 1;
    }
    assert(all.take(i as int) =~= all);
    read
}

impl ArgModel {
    /// The `#[ion(...)]` attributes of the argument, in order, can be read as holding what is
    /// given for them.
    pub open spec fn reads(self, read: Seq<EntriesModel>) -> bool {
        match self {
            ArgModel::Typed(arg) => attributes_read(arg.attrs, read),
            ArgModel::Receiver(_) => read.len() == 0,
        }
    }
}

impl FnArg {
    /// Reads each `#[ion(...)]` attribute of the argument, in order.
    pub fn read_attributes(&self) -> (r: Vec<Entries>)
        ensures
            self@.reads(view_each(r@)),
    {
        match self {
            FnArg::Typed(arg) => read_attributes(&arg.attrs),
            FnArg::Receiver(_) => Vec::new(),
        }
    }
}

/// What the entries of an argument's attributes ask for.
pub struct Options {
    pub vararg: bool,
    pub conversion: Option<String>,
    pub strict: bool,
}

/// What [`Options`] are.
pub struct OptionsModel {
    pub vararg: bool,
    pub conversion: Option<Seq<char>>,
    pub strict: bool,
}

impl View for Options {
    type V = OptionsModel;

    open spec fn view(&self) -> OptionsModel {
        OptionsModel {
            vararg: self.vararg,
            conversion: view_option(self.conversion),
            strict: self.strict,
        }
    }
}

/// What entries ask for.
pub open spec fn options_of(entries: Seq<EntryModel>) -> OptionsModel {
    OptionsModel {
        vararg: entries.contains(EntryModel::VarArgs),
        conversion: last_conversion(entries),
        strict: entries.contains(EntryModel::Strict),
    }
}

proof fn lemma_options_push(entries: Seq<EntryModel>, e: EntryModel)
    ensures
        options_of(entries.push(e)).vararg == (options_of(entries).vararg || e is VarArgs),
        options_of(entries.push(e)).strict == (options_of(entries).strict || e is Strict),
        options_of(entries.push(e)).conversion == (match e {
            EntryModel::Convert(conversion) => Some(conversion),
            _ => options_of(entries).conversion,
        }),
{
    let more = entries.push(e);
    assert(more.drop_last() =~= entries);
    assert(more.last() == e);
    assert forall|x: EntryModel| more.contains(x) == (entries.contains(x) || x == e) by {
        if entries.contains(x) {
            let i = choose|i: int| 0 <= i < entries.len() && entries[i] == x;
            assert(more[i] == x);
        }
        if x == e {
            assert(more[entries.len() as int] == x);
        }
    }
}

proof fn lemma_first_error(s: Seq<EntriesModel>, n: int)
    requires
        0 <= n <= s.len(),
        all_entries(s.take(n)) is Err,
    ensures
        all_entries(s) == all_entries(s.take(n)),
    decreases s.len(),
{
    if n < s.len() {
        assert(s.drop_last().take(n) =~= s.take(n));
        lemma_first_error(s.drop_last(), n);
    } else {
        assert(s.take(n) =~= s);
    }
}

/// What the entries ask for, or the first error.
pub fn read_options(read: &Vec<Entries>) -> (r: Result<Options, Error>)
    ensures
        view_result(r) == (match all_entries(view_each(read@)) {
            Ok(entries) => Ok(options_of(entries)),
            Err(e) => Err(e),
        }),
{
    let ghost all = view_each(read@);
    let mut options = Options { vararg: false, conversion: None, strict: false };
    let ghost mut seen: Seq<EntryModel> = Seq::empty();
    let mut i: usize = 0;
    while i < read.len()
        invariant
            i <= read@.len(),
            all == view_each(read@),
            all_entries(all.take(i as int)) == Ok::<Seq<EntryModel>, ErrorModel>(seen),
            options@ == options_of(seen),
        decreases read@.len() - i,
    {
        assert(all.take(i + 1).drop_last() =~= all.take(i as int));
        let entries = match &read[i] {
            Ok(entries) => entries,
            Err(e) => {
                proof {
                    lemma_first_error(all, i + 1);
                }
                return Err(e.clone());
            },
        };
        let ghost before = seen;
        let ghost here = view_all(entries@);
        let mut j: usize = 0;
        assert(before + here.take(0) =~= before);
        while j < entries.len()
            invariant
                j <= entries@.len(),
                here == view_all(entries@),
                seen == before + here.take(j as int),
                options@ == options_of(seen),
            decreases entries@.len() - j,
        {
            proof {
                lemma_options_push(seen, entries[j as int]@);
                assert(seen.push(entries[j as int]@) =~= before + here.take(j + 1));
                seen = seen.push(entries[j as int]@);
            }
            match &entries[j] {
                ParameterAttribute::VarArgs => {
                    options.vararg = true;
                },
                ParameterAttribute::Convert { conversion } => {
                    options.conversion = Some(conversion.clone());
                },
                ParameterAttribute::Strict => {
                    options.strict = true;
                },
                ParameterAttribute::This => {},
            }
            j += 1;
        }
        assert(here.take(j as int) =~= here);
        i += 1;
    }
    assert(all.take(i as int) =~= all);
    Ok(options)
}

proof fn lemma_marks_settled(s: Seq<EntriesModel>, n: int)
    requires
        0 <= n <= s.len(),
        marks_this(s.take(n)) != Ok::<bool, ErrorModel>(false),
    ensures
        marks_this(s) == marks_this(s.take(n)),
    decreases s.len(),
{
    if n < s.len() {
        assert(s.drop_last().take(n) =~= s.take(n));
        lemma_marks_settled(s.drop_last(), n);
    } else {
        assert(s.take(n) =~= s);
    }
}

/// Tells whether `this` is among the entries that stand before the first error.
pub fn find_this(read: &Vec<Entries>) -> (r: Result<bool, Error>)
    ensures
        view_result(r) == marks_this(view_each(read@)),
{
    let ghost all = view_each(read@);
    let mut i: usize = 0;
    while i < read.len()
        invariant
            i <= read@.len(),
            all == view_each(read@),
            marks_this(all.take(i as int)) == Ok::<bool, ErrorModel>(false),
        decreases read@.len() - i,
    {
        assert(all.take(i + 1).drop_last() =~= all.take(i as int));
        let entries = match &read[i] {
            Ok(entries) => entries,
            Err(e) => {
                proof {
                    lemma_marks_settled(all, i + 1);
                }
                return Err(e.clone());
            },
        };
        let ghost here = view_all(entries@);
        let mut j: usize = 0;
        while j < entries.len()
            invariant
                j <= entries@.len(),
                i < read@.len(),
                all == view_each(read@),
                here == view_all(entries@),
                all[i as int] == Ok::<Seq<EntryModel>, ErrorModel>(here),
                all.take(i + 1).drop_last() == all.take(i as int),
                marks_this(all.take(i as int)) == Ok::<bool, ErrorModel>(false),
                forall|k: int| 0 <= k < j ==> here[k] != EntryModel::This,
            decreases entries@.len() - j,
        {
            match &entries[j] {
                ParameterAttribute::This => {
                    proof {
                        assert(here[j as int] == EntryModel::This);
                        assert(here.contains(EntryModel::This));
                        lemma_marks_settled(all, i + 1);
                    }
                    return Ok(true);
                },
                _ => {},
            }
            j += 1;
        }
        assert(!here.contains(EntryModel::This));
        i += 1;
    }
    assert(all.take(i as int) =~= all);
    Ok(false)
}

} // verus!
