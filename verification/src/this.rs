//! The parameter that stands for the receiver of a call.
use vstd::prelude::*;

use crate::attribute::{find_this, marks_this, view_each, Entries, EntriesModel};
use crate::statement::{
    accept_block, all_accepted, ask_for_errors, block_accepted, parse_stmt, statements, view_block,
    view_errors, view_statements, Stmt,
};
use crate::syntax::{ArgModel, Error, ErrorModel, FnArg, Pat, PatIdent, PatModel, Place};
use crate::types::{clone_optional, write_lifetime, write_mutability};
use crate::types::{lifetime_text, mutability_text, Type, TypeModel, TypeReference};
use crate::views::{view_all, view_option, view_result};

verus! {

/// How a function takes the receiver.
#[derive(Clone, Debug, PartialEq)]
pub enum ThisKind {
    /// By reference: the lifetime, where there is one, and whether the reference is mutable.
    Ref(Option<String>, bool),
    /// By value.
    Owned,
}

/// The parameter that stands for the receiver. The type is the type of the receiver itself, which
/// a reference refers to.
#[derive(Debug)]
pub struct ThisParameter {
    pub pat: Box<Pat>,
    pub ty: Box<Type>,
    pub kind: ThisKind,
}

/// What a [`ThisKind`] is.
pub enum KindModel {
    Ref(Option<Seq<char>>, bool),
    Owned,
}

/// What a [`ThisParameter`] is.
pub struct ThisModel {
    pub pat: PatModel,
    pub ty: TypeModel,
    pub kind: KindModel,
}

impl View for ThisKind {
    type V = KindModel;

    open spec fn view(&self) -> KindModel {
        match self {
            ThisKind::Ref(lifetime, mutability) => KindModel::Ref(
                view_option(*lifetime),
                *mutability,
            ),
            ThisKind::Owned => KindModel::Owned,
        }
    }
}

impl View for ThisParameter {
    type V = ThisModel;

    open spec fn view(&self) -> ThisModel {
        ThisModel { pat: self.pat@, ty: self.ty@, kind: self.kind@ }
    }
}

/// The message for a receiver whose type cannot be that of `self`.
pub open spec fn invalid_self() -> Seq<char> {
    "Invalid type for self"@
}

/// The message for `self` outside of a class.
pub open spec fn self_outside_class() -> Seq<char> {
    "Can only have self on Class Methods"@
}

/// The message for a class method that takes its receiver by value.
pub open spec fn owned_self() -> Seq<char> {
    "Self cannot be owned on Class Methods"@
}

/// The pattern `self`.
pub open spec fn self_pat() -> PatModel {
    PatModel::Ident {
        by_ref: false,
        mutability: false,
        ident: "self"@,
        subpat: None,
        span: Place::CallSite,
    }
}

/// The receiver that a pattern and a type stand for. A class method takes its receiver by
/// reference.
pub open spec fn receiver_of(pat: PatModel, ty: TypeModel, is_class: bool, span: Place) -> Result<
    ThisModel,
    ErrorModel,
> {
    match ty {
        TypeModel::Reference { lifetime, mutability, elem } => Ok(
            ThisModel { pat, ty: *elem, kind: KindModel::Ref(lifetime, mutability) },
        ),
        _ => if is_class {
            Err(ErrorModel { span, message: invalid_self() })
        } else {
            Ok(ThisModel { pat, ty, kind: KindModel::Owned })
        },
    }
}

/// A receiver that is there, or the error in it.
pub open spec fn present(r: Result<ThisModel, ErrorModel>) -> Result<
    Option<ThisModel>,
    ErrorModel,
> {
    match r {
        Ok(this) => Ok(Some(this)),
        Err(e) => Err(e),
    }
}

impl ThisModel {
    /// `&` need not be put in front of a class type with several bounds.
    pub open spec fn is_defined(arg: ArgModel, class: Option<TypeModel>) -> bool {
        match (arg, class) {
            (ArgModel::Receiver(recv), Some(class)) => recv.reference is None || !(class is Sum),
            _ => true,
        }
    }

    /// The receiver that an argument stands for, if it stands for one, or the error in it, given
    /// what its `#[ion(...)]` attributes hold and the type of the class. There is neither where
    /// `&` would have to be put in front of a class type with several bounds.
    pub open spec fn of(
        arg: ArgModel,
        read: Seq<EntriesModel>,
        class: Option<TypeModel>,
    ) -> Option<Result<Option<ThisModel>, ErrorModel>> {
        match arg {
            ArgModel::Typed(arg) => if class is Some && arg.pat.is_self() {
                Some(
                    present(
                        receiver_of(arg.pat, arg.ty.with_self(class.unwrap()), true, arg.span),
                    ),
                )
            } else {
                match marks_this(read) {
                    Err(e) => Some(Err(e)),
                    Ok(false) => Some(Ok(None)),
                    Ok(true) => Some(
                        present(receiver_of(arg.pat, arg.ty, class is Some, arg.span)),
                    ),
                }
            },
            ArgModel::Receiver(recv) => match (class, recv.reference) {
                (None, _) => Some(
                    Err(ErrorModel { span: recv.span, message: self_outside_class() }),
                ),
                (Some(_), None) => Some(
                    Err(ErrorModel { span: recv.span, message: invalid_self() }),
                ),
                (Some(class), Some(lifetime)) => if class is Sum {
                    None
                } else {
                    Some(
                        Ok(
                            Some(
                                ThisModel {
                                    pat: self_pat(),
                                    ty: class,
                                    kind: KindModel::Ref(lifetime, recv.mutability),
                                },
                            ),
                        ),
                    )
                },
            },
        }
    }

    /// The name of the receiver in a class method, where `self` is not at hand.
    pub open spec fn name_text(self) -> Seq<char> {
        if self.pat.is_self() {
            "self_"@
        } else {
            self.pat.text()
        }
    }

    /// The error of a class method that takes its receiver by value.
    pub open spec fn owned_error(self) -> ErrorModel {
        ErrorModel {
            span: if self.pat.is_self() {
                Place::CallSite
            } else {
                self.pat.span()
            },
            message: owned_self(),
        }
    }

    /// The texts of the statements that get the receiver.
    pub open spec fn statement_texts(self, is_class: bool) -> Result<Seq<Seq<char>>, ErrorModel> {
        if is_class {
            match self.kind {
                KindModel::Ref(lifetime, mutability) => Ok(
                    seq![
                        "let mut this = args.this().to_object(cx);"@,
                        "let "@ + self.name_text() + ": &"@ + lifetime_text(lifetime)
                            + mutability_text(mutability) + self.ty.text() + " = <"@
                            + self.ty.text()
                            + " as ::ion::ClassInitialiser>::get_private(&mut this);"@,
                    ],
                ),
                KindModel::Owned => Err(self.owned_error()),
            }
        } else {
            Ok(
                seq![
                    "let "@ + self.pat.text() + ": "@ + self.ty.text() + " = <"@ + self.ty.text()
                        + " as ::ion::conversions::FromValue>::from_value(cx, args.this(), true, ())?;"@,
                ],
            )
        }
    }

    /// The statements that get the receiver, or the first error, given the error in each of them,
    /// if there is one.
    pub open spec fn statements(self, is_class: bool, errors: Seq<Option<ErrorModel>>) -> Result<
        Seq<Seq<char>>,
        ErrorModel,
    > {
        match self.statement_texts(is_class) {
            Ok(texts) => all_accepted(texts, errors),
            Err(e) => Err(e),
        }
    }

    /// The texts of the statements that get the receiver of an asynchronous class method: the one
    /// that declares it, and those that give it its value.
    pub open spec fn async_class_texts(self) -> Result<(Seq<char>, Seq<Seq<char>>), ErrorModel> {
        match self.kind {
            KindModel::Ref(_, mutability) => Ok(
                (
                    "let "@ + self.name_text() + ": &'static "@ + mutability_text(mutability)
                        + self.ty.text() + ";"@,
                    seq![
                        "let mut this2 = this.take().unwrap().take().into();"@,
                        "self_ = ::std::mem::transmute(<"@ + self.ty.text()
                            + " as ::ion::ClassInitialiser>::get_private(&mut this2));"@,
                        "this = ::std::option::Option::Some(::ion::utils::SendWrapper::new(this2.into_local()));"@,
                    ],
                ),
            ),
            KindModel::Owned => Err(self.owned_error()),
        }
    }

    /// The statements that get the receiver of an asynchronous class method, or the first error,
    /// given the error in the one that declares it and those in the ones that give it its value.
    pub open spec fn async_class_statements(
        self,
        error: Option<ErrorModel>,
        errors: Seq<Option<ErrorModel>>,
    ) -> Result<(Seq<char>, Seq<Seq<char>>), ErrorModel> {
        match self.async_class_texts() {
            Err(e) => Err(e),
            Ok((pre, inner)) => block_accepted(pre, inner, error, errors),
        }
    }
}

/// The receiver that a pattern and a type stand for. A class method takes its receiver by
/// reference.
pub fn parse_this(pat: Box<Pat>, ty: Box<Type>, is_class: bool, span: Place) -> (r: Result<
    ThisParameter,
    Error,
>)
    ensures
        view_result(r) == receiver_of(pat@, ty@, is_class, span),
{
    match *ty {
        Type::Reference(reference) => Ok(
            ThisParameter {
                pat,
                ty: reference.elem,
                kind: ThisKind::Ref(reference.lifetime, reference.mutability),
            },
        ),
        other => if is_class {
            Err(Error::new(span, "Invalid type for self"))
        } else {
            Ok(ThisParameter { pat, ty: Box::new(other), kind: ThisKind::Owned })
        },
    }
}

/// What is in an optional reference to a type.
pub open spec fn view_class(class: Option<&Type>) -> Option<TypeModel> {
    match class {
        Some(ty) => Some(ty@),
        None => None,
    }
}

/// What a receiver is, where there is one, or the error in the place of it.
pub open spec fn view_this(r: Result<Option<ThisParameter>, Error>) -> Result<
    Option<ThisModel>,
    ErrorModel,
> {
    match r {
        Ok(this) => Ok(view_option(this)),
        Err(e) => Err(e@),
    }
}

/// What texts are, or the error in the place of them.
pub open spec fn view_texts(r: Result<Vec<String>, Error>) -> Result<Seq<Seq<char>>, ErrorModel> {
    match r {
        Ok(texts) => Ok(view_all(texts@)),
        Err(e) => Err(e@),
    }
}

impl ThisParameter {
    /// The receiver that an argument stands for, if it stands for one, given what its
    /// `#[ion(...)]` attributes hold and the type of the class.
    pub fn from_read(arg: &FnArg, read: &Vec<Entries>, class_ty: Option<&Type>) -> (r: Result<
        Option<ThisParameter>,
        Error,
    >)
        requires
            ThisModel::is_defined(arg@, view_class(class_ty)),
        ensures
            Some(view_this(r)) == ThisModel::of(arg@, view_each(read@), view_class(class_ty)),
    {
        match arg {
            FnArg::Typed(arg) => {
                let pat = Box::new(arg.pat.clone());
                match class_ty {
                    Some(class_ty) if pat.is_self() => {
                        let ty = Box::new(arg.ty.with_self(class_ty));
                        match parse_this(pat, ty, true, arg.span) {
                            Ok(this) => Ok(Some(this)),
                            Err(e) => Err(e),
                        }
                    },
                    _ => match find_this(read) {
                        Ok(true) => {
                            let ty = Box::new(arg.ty.clone());
                            match parse_this(pat, ty, class_ty.is_some(), arg.span) {
                                Ok(this) => Ok(Some(this)),
                                Err(e) => Err(e),
                            }
                        },
                        Ok(false) => Ok(None),
                        Err(e) => Err(e),
                    },
                }
            },
            FnArg::Receiver(recv) => {
                let class_ty = match class_ty {
                    Some(class_ty) => class_ty,
                    None => return Err(
                        Error::new(recv.span, "Can only have self on Class Methods"),
                    ),
                };
                let lifetime = match &recv.reference {
                    Some(lifetime) => lifetime,
                    None => return Err(Error::new(recv.span, "Invalid type for self")),
                };
                let this = Pat::Ident(
                    PatIdent {
                        by_ref: false,
                        mutability: false,
                        ident: "self".to_owned(),
                        subpat: None,
                        span: Place::CallSite,
                    },
                );
                let ty = Type::Reference(
                    TypeReference {
                        lifetime: clone_optional(lifetime),
                        mutability: recv.mutability,
                        elem: Box::new(class_ty.clone()),
                    },
                );
                match parse_this(Box::new(this), Box::new(ty), true, recv.span) {
                    Ok(this) => Ok(Some(this)),
                    Err(e) => Err(e),
                }
            },
        }
    }

    /// Tells whether `&` need not be put in front of a class type with several bounds.
    pub(crate) fn is_defined(arg: &FnArg, class_ty: Option<&Type>) -> (r: bool)
        ensures
            r == ThisModel::is_defined(arg@, view_class(class_ty)),
    {
        match (arg, class_ty) {
            (FnArg::Receiver(recv), Some(Type::Sum(_))) => recv.reference.is_none(),
            _ => true,
        }
    }

    /// The receiver that an argument stands for, if it stands for one.
    pub fn from_arg(arg: &FnArg, class_ty: Option<&Type>) -> (r: Result<
        Option<ThisParameter>,
        Error,
    >)
        requires
            ThisModel::is_defined(arg@, view_class(class_ty)),
        ensures
            exists|read: Seq<EntriesModel>|
                arg@.reads(read) && Some(view_this(r)) == #[trigger] ThisModel::of(
                    arg@,
                    read,
                    view_class(class_ty),
                ),
    {
        let read = arg.read_attributes();
        assert(arg@.reads(view_each(read@)));
        ThisParameter::from_read(arg, &read, class_ty)
    }

    fn name_text(&self) -> (r: String)
        ensures
            r@ == self@.name_text(),
    {
        if self.pat.is_self() {
            "self_".to_owned()
        } else {
            self.pat.text()
        }
    }

    fn owned_error(&self) -> (r: Error)
        ensures
            r@ == self@.owned_error(),
    {
        let span = if self.pat.is_self() {
            Place::CallSite
        } else {
            self.pat.span()
        };
        Error::new(span, "Self cannot be owned on Class Methods")
    }

    /// Writes the statements that get the receiver.
    pub fn statement_texts(&self, is_class: bool) -> (r: Result<Vec<String>, Error>)
        ensures
            view_texts(r) == self@.statement_texts(is_class),
    {
        let ty = self.ty.text();
        let mut texts: Vec<String> = Vec::new();
        let mut text = "let ".to_owned();
        if is_class {
            let (lifetime, mutability) = match &self.kind {
                ThisKind::Ref(lifetime, mutability) => (lifetime, *mutability),
                ThisKind::Owned => return Err(self.owned_error()),
            };
            texts.push("let mut this = args.this().to_object(cx);".to_owned());
            text.append(self.name_text().as_str());
            text.append(": &");
            text.append(write_lifetime(lifetime).as_str());
            text.append(write_mutability(mutability).as_str());
            text.append(ty.as_str());
            text.append(" = <");
            text.append(ty.as_str());
            text.append(" as ::ion::ClassInitialiser>::get_private(&mut this);");
        } else {
            text.append(self.pat.text().as_str());
            text.append(": ");
            text.append(ty.as_str());
            text.append(" = <");
            text.append(ty.as_str());
            text.append(
                " as ::ion::conversions::FromValue>::from_value(cx, args.this(), true, ())?;",
            );
        }
        texts.push(text);
        assert(view_all(texts@) =~= self@.statement_texts(is_class)->Ok_0);
        Ok(texts)
    }

    /// The statements that get the receiver.
    pub fn to_statements(&self, is_class: bool) -> (r: Result<Vec<Stmt>, Error>)
        ensures
            exists|errors: Seq<Option<ErrorModel>>|
                view_statements(r) == #[trigger] self@.statements(is_class, errors),
    {
        match self.statement_texts(is_class) {
            Ok(texts) => {
                let r = statements(&texts);
                proof {
                    let errors = choose|errors: Seq<Option<ErrorModel>>|
                        view_statements(r) == #[trigger] all_accepted(view_all(texts@), errors);
                    assert(view_statements(r) == self@.statements(is_class, errors));
                }
                r
            },
            Err(e) => {
                assert(self@.statements(is_class, Seq::empty()) == Err::<
                    Seq<Seq<char>>,
                    ErrorModel,
                >(e@));
                Err(e)
            },
        }
    }

    /// Writes the statements that get the receiver of an asynchronous class method: the one that
    /// declares it, and those that give it its value.
    pub fn async_class_texts(&self) -> (r: Result<(String, Vec<String>), Error>)
        ensures
            (match r {
                Ok((pre, inner)) => Ok((pre@, view_all(inner@))),
                Err(e) => Err(e@),
            }) == self@.async_class_texts(),
    {
        let mutability = match &self.kind {
            ThisKind::Ref(_, mutability) => *mutability,
            ThisKind::Owned => return Err(self.owned_error()),
        };
        let ty = self.ty.text();
        let mut pre = "let ".to_owned();
        pre.append(self.name_text().as_str());
        pre.append(": &'static ");
        pre.append(write_mutability(mutability).as_str());
        pre.append(ty.as_str());
        pre.append(";");
        let mut assign = "self_ = ::std::mem::transmute(<".to_owned();
        assign.append(ty.as_str());
        assign.append(" as ::ion::ClassInitialiser>::get_private(&mut this2));");
        let mut inner: Vec<String> = Vec::new();
        inner.push("let mut this2 = this.take().unwrap().take().into();".to_owned());
        inner.push(assign);
        inner.push(
            "this = ::std::option::Option::Some(::ion::utils::SendWrapper::new(this2.into_local()));".to_owned(),
        );
        assert(view_all(inner@) =~= self@.async_class_texts()->Ok_0.1);
        Ok((pre, inner))
    }

    /// The statements that get the receiver of an asynchronous class method: the one that declares
    /// it, and those that give it its value.
    pub fn to_async_class_statements(&self) -> (r: Result<(Stmt, Vec<Stmt>), Error>)
        ensures
            exists|error: Option<ErrorModel>, errors: Seq<Option<ErrorModel>>|
                view_block(r) == #[trigger] self@.async_class_statements(error, errors),
    {
        match self.async_class_texts() {
            Ok((pre, inner)) => {
                let error = parse_stmt(pre.as_str());
                let errors = ask_for_errors(&inner);
                assert(self@.async_class_statements(view_option(error), view_errors(errors@))
                    == block_accepted(
                    pre@,
                    view_all(inner@),
                    view_option(error),
                    view_errors(errors@),
                ));
                accept_block(pre, &inner, error, &errors)
            },
            Err(e) => {
                assert(self@.async_class_statements(None, Seq::empty()) is Err);
                Err(e)
            },
        }
    }
}

} // verus!
