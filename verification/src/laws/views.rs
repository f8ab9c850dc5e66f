//! What the models of the library's types hold: all that the values hold, each part as it is.
use vstd::prelude::*;

use crate::attribute::{view_answers, view_entries, Answer, Entries, EntryModel, Options};
use crate::attribute::{view_each, OptionsModel, ParameterAttribute};
use crate::parameter::{Parameter, ParameterModel};
use crate::parameters::{view_args, view_parse, view_reads, Argument, ArgumentModel};
use crate::parameters::{Parameters, ParametersModel};
use crate::statement::{view_block, view_errors, view_statements, Stmt};
use crate::syntax::{ArgModel, Attribute, AttributeMeta, AttributeModel, Error, ErrorModel};
use crate::syntax::{FnArg, MetaModel, Pat, PatIdent, PatModel, PatType, PatTypeModel, Place};
use crate::syntax::{Receiver, ReceiverModel, Token, TokenModel};
use crate::this::{view_class, view_texts, view_this, KindModel, ThisKind, ThisModel, ThisParameter};
use crate::types::{generics_model, pieces_model, ArgumentsModel, GenericArgument, GenericModel};
use crate::types::{PathArguments, Piece, PieceModel, Type, TypeModel, TypePath, TypeReference};
use crate::views::{view_all, view_option, view_result};

verus! {

/// Optional values, results and sequences are viewed part by part.
pub proof fn law_containers<T: View, E: View>(t: T, e: E, s: Seq<T>)
    ensures
        view_option(Some(t)) == Some(t@),
        view_option(None::<T>) is None,
        view_result(Ok::<T, E>(t)) == Ok::<T::V, E::V>(t@),
        view_result(Err::<T, E>(e)) == Err::<T::V, E::V>(e@),
        view_all(s).len() == s.len(),
        forall|i: int| 0 <= i < s.len() ==> #[trigger] view_all(s)[i] == s[i]@,
{
}

/// A pattern is viewed with all that is written of it, and its place.
pub proof fn law_pat_view(p: PatIdent, text: String, span: Place)
    ensures
        Pat::Ident(p)@ == (PatModel::Ident {
            by_ref: p.by_ref,
            mutability: p.mutability,
            ident: p.ident@,
            subpat: view_option(p.subpat),
            span: p.span,
        }),
        (Pat::Other { text, span })@ == (PatModel::Other { text: text@, span }),
{
}

/// Errors, tokens and statements are viewed with their texts and places.
pub proof fn law_text_views(e: Error, t: Token, s: Stmt, a: Argument)
    ensures
        e@ == (ErrorModel { span: e.span, message: e.message@ }),
        t@ == (TokenModel { text: t.text@, joint: t.joint, span: t.span }),
        s@ == s.text@,
        a@ == (ArgumentModel { text: a.text@, span: a.span }),
{
}

/// Attributes are viewed with their paths and with what follows them.
pub proof fn law_attribute_view(
    path: String,
    path_span: Place,
    equals: Place,
    tokens: Vec<Token>,
    close: Place,
)
    ensures
        (Attribute { path, path_span, meta: AttributeMeta::Path })@ == (AttributeModel {
            path: path@,
            path_span,
            meta: MetaModel::Path,
        }),
        (Attribute { path, path_span, meta: AttributeMeta::NameValue(equals) })@ == (
        AttributeModel { path: path@, path_span, meta: MetaModel::NameValue(equals) }),
        (Attribute { path, path_span, meta: AttributeMeta::List { tokens, close } })@ == (
        AttributeModel {
            path: path@,
            path_span,
            meta: MetaModel::List { tokens: view_all(tokens@), close },
        }),
{
}

/// Arguments are viewed with all their parts.
pub proof fn law_argument_view(p: PatType, r: Receiver, l: Option<String>)
    ensures
        FnArg::Typed(p)@ == ArgModel::Typed(
            PatTypeModel { attrs: view_all(p.attrs@), pat: p.pat@, ty: p.ty@, span: p.span },
        ),
        r.reference == Some(l) ==> FnArg::Receiver(r)@ == ArgModel::Receiver(
            ReceiverModel {
                reference: Some(view_option(l)),
                mutability: r.mutability,
                span: r.span,
            },
        ),
        r.reference is None ==> FnArg::Receiver(r)@ == ArgModel::Receiver(
            ReceiverModel { reference: None, mutability: r.mutability, span: r.span },
        ),
{
}

/// Types are viewed part by part.
pub proof fn law_type_view(r: TypeReference, p: TypePath, pieces: Vec<Piece>)
    ensures
        Type::Reference(r)@ == (TypeModel::Reference {
            lifetime: view_option(r.lifetime),
            mutability: r.mutability,
            elem: Box::new((*r.elem)@),
        }),
        Type::Path(p)@ == (TypeModel::Path {
            head: pieces_model(p.head@),
            ident: p.ident@,
            arguments: p.arguments.model(),
        }),
        Type::Sum(pieces)@ == TypeModel::Sum(pieces_model(pieces@)),
        Type::Other(pieces)@ == TypeModel::Other(pieces_model(pieces@)),
{
    reveal_with_fuel(Type::model, 2);
}

/// The arguments of a path are viewed part by part.
pub proof fn law_path_arguments_view(
    turbofish: bool,
    args: Vec<GenericArgument>,
    pieces: Vec<Piece>,
    text: String,
    ty: Type,
)
    ensures
        PathArguments::Absent.model() is Absent,
        (PathArguments::AngleBracketed { turbofish, args }).model() == (
        ArgumentsModel::AngleBracketed { turbofish, args: generics_model(args@) }),
        PathArguments::Parenthesized(pieces).model() == ArgumentsModel::Parenthesized(
            pieces_model(pieces@),
        ),
        GenericArgument::Lifetime(text).model() == GenericModel::Lifetime(text@),
        GenericArgument::Type(ty).model() == GenericModel::Type(ty@),
        GenericArgument::Other(pieces).model() == GenericModel::Other(pieces_model(pieces@)),
        Piece::Text(text).model() == PieceModel::Text(text@),
        Piece::Lifetime(text).model() == PieceModel::Lifetime(text@),
        Piece::Type(ty).model() == PieceModel::Type(ty@),
{
    reveal_with_fuel(PathArguments::model, 2);
    reveal_with_fuel(GenericArgument::model, 2);
    reveal_with_fuel(Piece::model, 2);
}

/// Pieces, and arguments between angle brackets, are viewed one by one.
pub proof fn law_parts_view(s: Seq<Piece>, args: Seq<GenericArgument>)
    ensures
        pieces_model(s) == s.map_values(|p: Piece| p.model()),
        generics_model(args) == args.map_values(|g: GenericArgument| g.model()),
    decreases s.len() + args.len(),
{
    if s.len() > 0 {
        law_parts_view(s.drop_last(), args);
    } else if args.len() > 0 {
        law_parts_view(s, args.drop_last());
    }
    assert(pieces_model(s) =~= s.map_values(|p: Piece| p.model()));
    assert(generics_model(args) =~= args.map_values(|g: GenericArgument| g.model()));
}

/// What attributes hold is viewed entry by entry.
pub proof fn law_entries_view(
    conversion: String,
    entries: Vec<ParameterAttribute>,
    e: Error,
    s: Seq<Entries>,
    answers: Seq<Answer>,
    o: Options,
)
    ensures
        ParameterAttribute::This@ == EntryModel::This,
        ParameterAttribute::VarArgs@ == EntryModel::VarArgs,
        ParameterAttribute::Strict@ == EntryModel::Strict,
        (ParameterAttribute::Convert { conversion })@ == EntryModel::Convert(conversion@),
        view_entries(Ok(entries)) == Ok::<Seq<EntryModel>, ErrorModel>(view_all(entries@)),
        view_entries(Err(e)) == Err::<Seq<EntryModel>, ErrorModel>(e@),
        view_each(s).len() == s.len(),
        forall|i: int| 0 <= i < s.len() ==> #[trigger] view_each(s)[i] == view_entries(s[i]),
        view_answers(answers).len() == answers.len(),
        forall|i: int|
            0 <= i < answers.len() ==> #[trigger] view_answers(answers)[i] == (match answers[i] {
                Ok(left) => Ok::<nat, ErrorModel>(left as nat),
                Err(e) => Err(e@),
            }),
        o@ == (OptionsModel {
            vararg: o.vararg,
            conversion: view_option(o.conversion),
            strict: o.strict,
        }),
{
}

/// Parameters are viewed with all their parts.
pub proof fn law_parameter_view(
    pat: Box<Pat>,
    ty: Box<Type>,
    conversion: String,
    strict: bool,
    inner: Box<Type>,
)
    ensures
        (Parameter::Regular { pat, ty, conversion, strict, option: None })@ == (
        ParameterModel::Regular {
            pat: pat@,
            ty: ty@,
            conversion: conversion@,
            strict,
            option: None,
        }),
        (Parameter::Regular { pat, ty, conversion, strict, option: Some(inner) })@ == (
        ParameterModel::Regular {
            pat: pat@,
            ty: ty@,
            conversion: conversion@,
            strict,
            option: Some(inner@),
        }),
        (Parameter::VarArgs { pat, ty, conversion, strict })@ == (ParameterModel::VarArgs {
            pat: pat@,
            ty: ty@,
            conversion: conversion@,
            strict,
        }),
        Parameter::Context(pat, ty)@ == ParameterModel::Context(pat@, ty@),
        Parameter::Arguments(pat, ty)@ == ParameterModel::Arguments(pat@, ty@),
{
}

/// A receiver, and all the parameters of a function, are viewed with all their parts.
pub proof fn law_parameters_view(
    this: ThisParameter,
    lifetime: Option<String>,
    mutability: bool,
    ident: String,
    all: Parameters,
)
    ensures
        this@ == (ThisModel { pat: this.pat@, ty: this.ty@, kind: this.kind@ }),
        ThisKind::Ref(lifetime, mutability)@ == KindModel::Ref(view_option(lifetime), mutability),
        ThisKind::Owned@ == KindModel::Owned,
        all@.parameters == view_all(all.parameters@),
        all@.idents == view_all(all.idents@),
        all@.nargs == (all.nargs.0 as nat, all.nargs.1 as nat),
        all.this == Some((this, ident)) ==> all@.this == Some((this@, ident@)),
        all.this is None ==> all@.this is None,
{
}

/// What comes back from the library's functions is viewed part by part.
pub proof fn law_result_views(
    statements: Vec<Stmt>,
    pre: Stmt,
    texts: Vec<String>,
    this: ThisParameter,
    parsed: Parameters,
    args: Vec<Argument>,
    e: Error,
    ty: &Type,
)
    ensures
        view_statements(Ok(statements)) == Ok::<Seq<Seq<char>>, ErrorModel>(
            view_all(statements@),
        ),
        view_statements(Err(e)) == Err::<Seq<Seq<char>>, ErrorModel>(e@),
        view_block(Ok((pre, statements))) == Ok::<(Seq<char>, Seq<Seq<char>>), ErrorModel>(
            (pre@, view_all(statements@)),
        ),
        view_block(Err(e)) == Err::<(Seq<char>, Seq<Seq<char>>), ErrorModel>(e@),
        view_texts(Ok(texts)) == Ok::<Seq<Seq<char>>, ErrorModel>(view_all(texts@)),
        view_texts(Err(e)) == Err::<Seq<Seq<char>>, ErrorModel>(e@),
        view_this(Ok(Some(this))) == Ok::<Option<ThisModel>, ErrorModel>(Some(this@)),
        view_this(Ok(None)) == Ok::<Option<ThisModel>, ErrorModel>(None),
        view_this(Err(e)) == Err::<Option<ThisModel>, ErrorModel>(e@),
        view_parse(Some(Ok(parsed))) == Some(Ok::<ParametersModel, ErrorModel>(parsed@)),
        view_parse(Some(Err(e))) == Some(Err::<ParametersModel, ErrorModel>(e@)),
        view_parse(None) is None,
        view_args(Some(args)) == Some(view_all(args@)),
        view_args(None) is None,
        view_class(Some(ty)) == Some(ty@),
        view_class(None) is None,
{
}

/// What a parser answers, and what attributes hold, is viewed one by one.
pub proof fn law_answer_views(errors: Seq<Option<Error>>, read: Seq<Vec<Entries>>)
    ensures
        view_errors(errors).len() == errors.len(),
        forall|i: int|
            0 <= i < errors.len() ==> #[trigger] view_errors(errors)[i] == view_option(errors[i]),
        view_reads(read).len() == read.len(),
        forall|i: int| 0 <= i < read.len() ==> #[trigger] view_reads(read)[i] == view_each(read[i]@),
{
}

} // verus!
