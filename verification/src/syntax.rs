//! The parts of a signature: patterns, arguments and their attributes, and errors in them.
use vstd::prelude::*;

use crate::text::text_is;
use crate::types::{clone_optional, mutability_text, write_mutability, Type, TypeModel};
use crate::views::{view_all, view_option};

verus! {

/// `proc_macro2::Span`, a place that is only passed on.
#[verifier::external_type_specification]
#[verifier::external_body]
pub struct ExSpan(proc_macro2::Span);

/// A place: the call of the macro, a place in the source known by its number, or what a parser has
/// reported as the place of an error.
#[derive(Clone, Copy, Debug)]
pub enum Place {
    CallSite,
    Source(usize),
    Reported(proc_macro2::Span),
}

/// An error at a place in the source.
#[derive(Debug)]
pub struct Error {
    pub span: Place,
    pub message: String,
}

/// What an [`Error`] is.
pub struct ErrorModel {
    pub span: Place,
    pub message: Seq<char>,
}

impl View for Error {
    type V = ErrorModel;

    open spec fn view(&self) -> ErrorModel {
        ErrorModel { span: self.span, message: self.message@ }
    }
}

impl Error {
    /// An error with the given message.
    pub fn new(span: Place, message: &str) -> (r: Error)
        ensures
            r@ == (ErrorModel { span, message: message@ }),
    {
        Error { span, message: message.to_owned() }
    }
}

impl Clone for Error {
    fn clone(&self) -> (r: Self)
        ensures
            r@ == self@,
    {
        Error { span: self.span, message: self.message.clone() }
    }
}

/// A pattern.
#[derive(Debug)]
pub enum Pat {
    /// `ref mut name @ pattern`
    Ident(PatIdent),
    /// Any other pattern.
    Other { text: String, span: Place },
}

/// A pattern that binds a name.
#[derive(Debug)]
pub struct PatIdent {
    pub by_ref: bool,
    pub mutability: bool,
    pub ident: String,
    pub subpat: Option<String>,
    pub span: Place,
}

/// What a [`Pat`] is.
pub enum PatModel {
    Ident {
        by_ref: bool,
        mutability: bool,
        ident: Seq<char>,
        subpat: Option<Seq<char>>,
        span: Place,
    },
    Other { text: Seq<char>, span: Place },
}

impl View for Pat {
    type V = PatModel;

    open spec fn view(&self) -> PatModel {
        match self {
            Pat::Ident(p) => PatModel::Ident {
                by_ref: p.by_ref,
                mutability: p.mutability,
                ident: p.ident@,
                subpat: view_option(p.subpat),
                span: p.span,
            },
            Pat::Other { text, span } => PatModel::Other { text: text@, span: *span },
        }
    }
}

impl PatModel {
    /// The name that the pattern binds, where it is a pattern that binds a name.
    pub open spec fn ident(self) -> Option<Seq<char>> {
        match self {
            PatModel::Ident { ident, .. } => Some(ident),
            PatModel::Other { .. } => None,
        }
    }

    /// The pattern is `self`, and nothing more.
    pub open spec fn is_self(self) -> bool {
        self matches PatModel::Ident { by_ref, mutability, ident, subpat, .. } && !by_ref
            && !mutability && ident == "self"@ && subpat is None
    }

    pub open spec fn span(self) -> Place {
        match self {
            PatModel::Ident { span, .. } => span,
            PatModel::Other { span, .. } => span,
        }
    }

    /// The pattern as it is written.
    pub open spec fn text(self) -> Seq<char> {
        match self {
            PatModel::Ident { by_ref, mutability, ident, subpat, .. } => (if by_ref {
                "ref "@
            } else {
                Seq::empty()
            }) + mutability_text(mutability) + ident + (match subpat {
                Some(p) => " @ "@ + p,
                None => Seq::empty(),
            }),
            PatModel::Other { text, .. } => text,
        }
    }
}

impl Clone for Pat {
    fn clone(&self) -> (r: Self)
        ensures
            r@ == self@,
    {
        match self {
            Pat::Ident(p) => Pat::Ident(
                PatIdent {
                    by_ref: p.by_ref,
                    mutability: p.mutability,
                    ident: p.ident.clone(),
                    subpat: clone_optional(&p.subpat),
                    span: p.span,
                },
            ),
            Pat::Other { text, span } => Pat::Other { text: text.clone(), span: *span },
        }
    }
}

impl Pat {
    /// Tells whether the pattern is `self`, and nothing more.
    pub fn is_self(&self) -> (r: bool)
        ensures
            r == self@.is_self(),
    {
        match self {
            Pat::Ident(p) => !p.by_ref && !p.mutability && text_is(&p.ident, "self")
                && p.subpat.is_none(),
            Pat::Other { .. } => false,
        }
    }

    pub fn span(&self) -> (r: Place)
        ensures
            r == self@.span(),
    {
        match self {
            Pat::Ident(p) => p.span,
            Pat::Other { span, .. } => *span,
        }
    }

    /// Writes the pattern.
    pub fn text(&self) -> (r: String)
        ensures
            r@ == self@.text(),
    {
        match self {
            Pat::Ident(p) => {
                let mut text = if p.by_ref {
                    "ref ".to_owned()
                } else {
                    String::new()
                };
                text.append(write_mutability(p.mutability).as_str());
                text.append(p.ident.as_str());
                match &p.subpat {
                    Some(subpat) => {
                        text.append(" @ ");
                        text.append(subpat.as_str());
                    },
                    None => {},
                }
                text
            },
            Pat::Other { text, .. } => text.clone(),
        }
    }
}

/// The name that a pattern binds, where it is a pattern that binds a name.
pub fn get_ident(pat: &Pat) -> (r: Option<String>)
    ensures
        view_option(r) == pat@.ident(),
{
    match pat {
        Pat::Ident(p) => Some(p.ident.clone()),
        Pat::Other { .. } => None,
    }
}

/// How a message names what a pattern binds: by the name that it binds.
pub fn format_pat(pat: &Pat) -> (r: Option<String>)
    ensures
        view_option(r) == pat@.ident(),
{
    get_ident(pat)
}

/// A token: an identifier, a literal, a punctuation character, or brackets with all that is between
/// them. A punctuation character may be joined to the next one. The place is where it begins.
#[derive(Debug)]
pub struct Token {
    pub text: String,
    pub joint: bool,
    pub span: Place,
}

/// What a [`Token`] is.
pub struct TokenModel {
    pub text: Seq<char>,
    pub joint: bool,
    pub span: Place,
}

impl View for Token {
    type V = TokenModel;

    open spec fn view(&self) -> TokenModel {
        TokenModel { text: self.text@, joint: self.joint, span: self.span }
    }
}

/// Tokens as they are written, with spaces between those that are not joined.
pub open spec fn tokens_text(tokens: Seq<TokenModel>) -> Seq<char>
    decreases tokens.len(),
{
    if tokens.len() == 0 {
        Seq::empty()
    } else {
        let before = tokens.drop_last();
        tokens_text(before) + (if before.len() == 0 || before.last().joint {
            Seq::empty()
        } else {
            " "@
        }) + tokens.last().text
    }
}

/// Writes the tokens from `from` up to `to`.
pub fn write_tokens(tokens: &Vec<Token>, from: usize, to: usize) -> (r: String)
    requires
        from <= to <= tokens@.len(),
    ensures
        r@ == tokens_text(view_all(tokens@).subrange(from as int, to as int)),
{
    let ghost all = view_all(tokens@);
    let mut text = String::new();
    let mut i: usize = from;
    while i < to
        invariant
            from <= i <= to <= tokens@.len(),
            all == view_all(tokens@),
            text@ == tokens_text(all.subrange(from as int, i as int)),
        decreases to - i,
    {
        proof {
            let here = all.subrange(from as int, i + 1);
            assert(here.drop_last() =~= all.subrange(from as int, i as int));
            assert(here.last() == tokens[i as int]@);
            assert(i > from ==> here.drop_last().last() == tokens[i - 1]@);
        }
        if i > from && !tokens[i - 1].joint {
            text.append(" ");
        }
        text.append(tokens[i].text.as_str());
        i += 1;
    }
    text
}

/// An attribute of an argument. The path is written without spaces.
#[derive(Debug)]
pub struct Attribute {
    pub path: String,
    pub path_span: Place,
    pub meta: AttributeMeta,
}

/// What follows the path of an attribute.
#[derive(Debug)]
pub enum AttributeMeta {
    /// Nothing.
    Path,
    /// `= value`: the place of the equals sign.
    NameValue(Place),
    /// `(tokens)`: what is between the parentheses, and the place of the closing one.
    List { tokens: Vec<Token>, close: Place },
}

/// What an [`Attribute`] is.
pub struct AttributeModel {
    pub path: Seq<char>,
    pub path_span: Place,
    pub meta: MetaModel,
}

/// What an [`AttributeMeta`] is.
pub enum MetaModel {
    Path,
    NameValue(Place),
    List { tokens: Seq<TokenModel>, close: Place },
}

impl View for Attribute {
    type V = AttributeModel;

    open spec fn view(&self) -> AttributeModel {
        AttributeModel {
            path: self.path@,
            path_span: self.path_span,
            meta: match self.meta {
                AttributeMeta::Path => MetaModel::Path,
                AttributeMeta::NameValue(equals) => MetaModel::NameValue(equals),
                AttributeMeta::List { tokens, close } => MetaModel::List {
                    tokens: view_all(tokens@),
                    close,
                },
            },
        }
    }
}

/// An argument of a function.
#[derive(Debug)]
pub enum FnArg {
    Typed(PatType),
    Receiver(Receiver),
}

/// `#[attributes] pattern: Type`
#[derive(Debug)]
pub struct PatType {
    pub attrs: Vec<Attribute>,
    pub pat: Pat,
    pub ty: Type,
    pub span: Place,
}

/// `self`, `&self` or `&'a mut self`: the reference, where there is one, with its lifetime, where
/// there is one.
#[derive(Debug)]
pub struct Receiver {
    pub reference: Option<Option<String>>,
    pub mutability: bool,
    pub span: Place,
}

/// What a [`PatType`] is.
pub struct PatTypeModel {
    pub attrs: Seq<AttributeModel>,
    pub pat: PatModel,
    pub ty: TypeModel,
    pub span: Place,
}

/// What a [`Receiver`] is.
pub struct ReceiverModel {
    pub reference: Option<Option<Seq<char>>>,
    pub mutability: bool,
    pub span: Place,
}

/// What a [`FnArg`] is.
pub enum ArgModel {
    Typed(PatTypeModel),
    Receiver(ReceiverModel),
}

impl View for PatType {
    type V = PatTypeModel;

    open spec fn view(&self) -> PatTypeModel {
        PatTypeModel {
            attrs: view_all(self.attrs@),
            pat: self.pat@,
            ty: self.ty@,
            span: self.span,
        }
    }
}

impl View for Receiver {
    type V = ReceiverModel;

    open spec fn view(&self) -> ReceiverModel {
        ReceiverModel {
            reference: match self.reference {
                Some(lifetime) => Some(view_option(lifetime)),
                None => None,
            },
            mutability: self.mutability,
            span: self.span,
        }
    }
}

impl View for FnArg {
    type V = ArgModel;

    open spec fn view(&self) -> ArgModel {
        match self {
            FnArg::Typed(p) => ArgModel::Typed(p@),
            FnArg::Receiver(r) => ArgModel::Receiver(r@),
        }
    }
}

} // verus!
