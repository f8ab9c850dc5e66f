//! The parameters that a function takes from the arguments of a call.
use vstd::prelude::*;

use crate::attribute::{all_entries, options_of, view_each, EntriesModel};
use crate::attribute::{read_options, Entries};
use crate::statement::{
    accepted, not_found_error, not_found_message, regular_param_statement, regular_param_text,
    regular_text, statement, varargs_param_statement, varargs_param_text, varargs_text,
    variable_param_text, variable_text, Stmt,
};
use crate::syntax::{ArgModel, Error, ErrorModel, FnArg, Pat, PatModel, PatType, PatTypeModel};
use crate::text::{is_literal_of, string_literal, text_is, usize_literal, usize_literal_text};
use crate::types::{
    lemma_generics_index, ArgumentsModel, GenericArgument, GenericModel, PathArguments, Type,
    TypeModel, TypePath,
};
use crate::views::{view_option, view_result};

verus! {

/// A parameter of a function.
#[derive(Debug)]
pub enum Parameter {
    /// A parameter that is converted from one value. Where its type is an `Option`, `option` holds
    /// the type in it.
    Regular {
        pat: Box<Pat>,
        ty: Box<Type>,
        conversion: String,
        strict: bool,
        option: Option<Box<Type>>,
    },
    /// A parameter that is converted from all the values that are left.
    VarArgs { pat: Box<Pat>, ty: Box<Type>, conversion: String, strict: bool },
    /// The context of the call.
    Context(Box<Pat>, Box<Type>),
    /// The arguments of the call.
    Arguments(Box<Pat>, Box<Type>),
}

/// What a [`Parameter`] is.
pub enum ParameterModel {
    Regular {
        pat: PatModel,
        ty: TypeModel,
        conversion: Seq<char>,
        strict: bool,
        option: Option<TypeModel>,
    },
    VarArgs { pat: PatModel, ty: TypeModel, conversion: Seq<char>, strict: bool },
    Context(PatModel, TypeModel),
    Arguments(PatModel, TypeModel),
}

impl View for Parameter {
    type V = ParameterModel;

    open spec fn view(&self) -> ParameterModel {
        match self {
            Parameter::Regular { pat, ty, conversion, strict, option } => ParameterModel::Regular {
                pat: pat@,
                ty: ty@,
                conversion: conversion@,
                strict: *strict,
                option: view_option(*option),
            },
            Parameter::VarArgs { pat, ty, conversion, strict } => ParameterModel::VarArgs {
                pat: pat@,
                ty: ty@,
                conversion: conversion@,
                strict: *strict,
            },
            Parameter::Context(pat, ty) => ParameterModel::Context(pat@, ty@),
            Parameter::Arguments(pat, ty) => ParameterModel::Arguments(pat@, ty@),
        }
    }
}

impl TypeModel {
    /// The type is a reference to a path that ends with `name`.
    pub open spec fn is_reference_to(self, name: Seq<char>) -> bool {
        self matches TypeModel::Reference { elem, .. } && *elem matches TypeModel::Path {
            ident,
            ..
        } && ident == name
    }

    /// What stands between the angle brackets of an `Option`.
    pub open spec fn option_arguments(self) -> Option<Seq<GenericModel>> {
        match self {
            TypeModel::Path {
                ident,
                arguments: ArgumentsModel::AngleBracketed { args, .. },
                ..
            } => if ident == "Option"@ {
                Some(args)
            } else {
                None
            },
            _ => None,
        }
    }

    /// The type is an `Option` with nothing between its angle brackets.
    pub open spec fn is_hollow_option(self) -> bool {
        self.option_arguments() matches Some(args) && args.len() == 0
    }

    /// The type in an `Option`: the last argument, where it is a type.
    pub open spec fn option_type(self) -> Option<TypeModel> {
        match self.option_arguments() {
            Some(args) => if args.len() == 0 {
                None
            } else {
                match args.last() {
                    GenericModel::Type(ty) => Some(ty),
                    _ => None,
                }
            },
            None => None,
        }
    }
}

/// Tells whether a path ends with `ident`.
pub fn type_ends_with(path: &TypePath, ident: &str) -> (r: bool)
    ensures
        r == (path.ident@ == ident@),
{
    text_is(&path.ident, ident)
}

impl Type {
    fn is_reference_to(&self, name: &str) -> (r: bool)
        ensures
            r == self@.is_reference_to(name@),
    {
        match self {
            Type::Reference(reference) => {
                let elem = &*reference.elem;
                assert(self@ matches TypeModel::Reference { elem: model, .. } && *model == elem@);
                match elem {
                    Type::Path(path) => type_ends_with(path, name),
                    _ => false,
                }
            },
            _ => false,
        }
    }

    fn is_hollow_option(&self) -> (r: bool)
        ensures
            r == self@.is_hollow_option(),
    {
        match self {
            Type::Path(path) => {
                assert(self@ matches TypeModel::Path { ident, arguments, .. } && ident
                    == path.ident@ && arguments == path.arguments.model());
                match &path.arguments {
                    PathArguments::AngleBracketed { args, .. } => {
                        proof {
                            lemma_generics_index(args@);
                        }
                        type_ends_with(path, "Option") && args.len() == 0
                    },
                    _ => false,
                }
            },
            _ => false,
        }
    }

    fn option_type(&self) -> (r: Option<Box<Type>>)
        requires
            !self@.is_hollow_option(),
        ensures
            view_option(r) == self@.option_type(),
    {
        match self {
            Type::Path(path) => {
                assert(self@ matches TypeModel::Path { ident, arguments, .. } && ident
                    == path.ident@ && arguments == path.arguments.model());
                match &path.arguments {
                    PathArguments::AngleBracketed { args, .. } => {
                        proof {
                            lemma_generics_index(args@);
                        }
                        if !type_ends_with(path, "Option") {
                            return None;
                        }
                        match &args[args.len() - 1] {
                            GenericArgument::Type(ty) => Some(Box::new(ty.clone())),
                            _ => None,
                        }
                    },
                    _ => None,
                }
            },
            _ => None,
        }
    }
}

/// The conversion of a parameter that asks for none.
pub open spec fn default_conversion() -> Seq<char> {
    "()"@
}

impl ParameterModel {
    /// The parameter that an argument stands for, or the first error in its attributes, given what
    /// its `#[ion(...)]` attributes hold. There is neither for an `Option` with nothing between
    /// its angle brackets.
    pub open spec fn of(arg: PatTypeModel, read: Seq<EntriesModel>) -> Option<
        Result<ParameterModel, ErrorModel>,
    > {
        if arg.ty.is_reference_to("Context"@) {
            Some(Ok(ParameterModel::Context(arg.pat, arg.ty)))
        } else if arg.ty.is_reference_to("Arguments"@) {
            Some(Ok(ParameterModel::Arguments(arg.pat, arg.ty)))
        } else {
            match all_entries(read) {
                Err(e) => Some(Err(e)),
                Ok(entries) => {
                    let options = options_of(entries);
                    let conversion = match options.conversion {
                        Some(conversion) => conversion,
                        None => default_conversion(),
                    };
                    if arg.ty.is_hollow_option() {
                        None
                    } else if options.vararg {
                        Some(
                            Ok(
                                ParameterModel::VarArgs {
                                    pat: arg.pat,
                                    ty: arg.ty,
                                    conversion,
                                    strict: options.strict,
                                },
                            ),
                        )
                    } else {
                        Some(
                            Ok(
                                ParameterModel::Regular {
                                    pat: arg.pat,
                                    ty: arg.ty,
                                    conversion,
                                    strict: options.strict,
                                    option: arg.ty.option_type(),
                                },
                            ),
                        )
                    }
                },
            }
        }
    }

    /// The parameter that an argument stands for, or the error in it, given what its
    /// `#[ion(...)]` attributes hold. There is neither for a receiver.
    pub open spec fn of_arg(arg: ArgModel, read: Seq<EntriesModel>) -> Option<
        Result<ParameterModel, ErrorModel>,
    > {
        match arg {
            ArgModel::Typed(arg) => ParameterModel::of(arg, read),
            ArgModel::Receiver(_) => None,
        }
    }

    pub open spec fn pat(self) -> PatModel {
        match self {
            ParameterModel::Regular { pat, .. } => pat,
            ParameterModel::VarArgs { pat, .. } => pat,
            ParameterModel::Context(pat, _) => pat,
            ParameterModel::Arguments(pat, _) => pat,
        }
    }

    pub open spec fn ty(self) -> TypeModel {
        match self {
            ParameterModel::Regular { ty, .. } => ty,
            ParameterModel::VarArgs { ty, .. } => ty,
            ParameterModel::Context(_, ty) => ty,
            ParameterModel::Arguments(_, ty) => ty,
        }
    }

    /// The expression that gives the value at an index of the call.
    pub open spec fn value_text(index: nat) -> Seq<char> {
        "args.value("@ + usize_literal_text(index) + ")"@
    }

    /// The statement that reads the parameter, when `index` values have been read before. The
    /// literal holds the message for a value that is missing.
    pub open spec fn statement_text(self, index: nat, literal: Seq<char>) -> Seq<char> {
        let bare = self.ty().without_lifetimes();
        match self {
            ParameterModel::Regular { pat, conversion, strict, option, .. } => regular_text(
                pat,
                bare,
                option is Some,
                conversion,
                strict,
                ParameterModel::value_text(index),
                literal,
            ),
            ParameterModel::VarArgs { pat, conversion, strict, .. } => varargs_text(
                index,
                pat,
                bare,
                conversion,
                strict,
            ),
            ParameterModel::Context(pat, _) => variable_text(pat, bare, "cx"@),
            ParameterModel::Arguments(pat, _) => variable_text(pat, bare, "args"@),
        }
    }

    /// The literal holds the message for a value of the parameter that is missing, where the
    /// parameter is converted from one value.
    pub open spec fn is_reported_by(self, index: nat, literal: Seq<char>) -> bool {
        self is Regular ==> is_literal_of(literal, not_found_message(self.pat().ident(), index))
    }

    /// How many values of the call the parameter takes up before the next one.
    pub open spec fn width(self) -> nat {
        if self is Regular {
            1
        } else {
            0
        }
    }
}

fn value_expression(index: usize) -> (r: String)
    ensures
        r@ == ParameterModel::value_text(index as nat),
{
    let mut text = "args.value(".to_owned();
    text.append(usize_literal(index).as_str());
    text.append(")");
    text
}

impl Parameter {
    /// The parameter that an argument stands for, given what its `#[ion(...)]` attributes hold.
    pub fn from_read(arg: &PatType, read: &Vec<Entries>) -> (r: Result<Parameter, Error>)
        requires
            ParameterModel::of(arg@, view_each(read@)) is Some,
        ensures
            Some(view_result(r)) == ParameterModel::of(arg@, view_each(read@)),
    {
        if arg.ty.is_reference_to("Context") {
            return Ok(
                Parameter::Context(Box::new(arg.pat.clone()), Box::new(arg.ty.clone())),
            );
        } else if arg.ty.is_reference_to("Arguments") {
            return Ok(
                Parameter::Arguments(Box::new(arg.pat.clone()), Box::new(arg.ty.clone())),
            );
        }
        let options = match read_options(read) {
            Ok(options) => options,
            Err(e) => return Err(e),
        };
        let conversion = match options.conversion {
            Some(conversion) => conversion,
            None => "()".to_owned(),
        };
        let pat = Box::new(arg.pat.clone());
        let ty = Box::new(arg.ty.clone());
        let option = ty.option_type();
        if options.vararg {
            Ok(Parameter::VarArgs { pat, ty, conversion, strict: options.strict })
        } else {
            Ok(Parameter::Regular { pat, ty, conversion, strict: options.strict, option })
        }
    }

    /// Tells whether an argument stands for a parameter or holds an error.
    pub(crate) fn is_readable(arg: &PatType, read: &Vec<Entries>) -> (r: bool)
        ensures
            r == (ParameterModel::of(arg@, view_each(read@)) is Some),
    {
        if arg.ty.is_reference_to("Context") || arg.ty.is_reference_to("Arguments") {
            return true;
        }
        match read_options(read) {
            Ok(_) => !arg.ty.is_hollow_option(),
            Err(_) => true,
        }
    }

    /// The parameter that an argument stands for. However its attributes are read, it has to stand
    /// for one or hold an error.
    pub fn from_arg(arg: &FnArg) -> (r: Result<Parameter, Error>)
        requires
            forall|read: Seq<EntriesModel>|
                #[trigger] arg@.reads(read) ==> ParameterModel::of_arg(arg@, read) is Some,
        ensures
            exists|read: Seq<EntriesModel>|
                arg@.reads(read) && Some(view_result(r)) == #[trigger] ParameterModel::of_arg(
                    arg@,
                    read,
                ),
    {
        let read = arg.read_attributes();
        assert(arg@.reads(view_each(read@)));
        match arg {
            FnArg::Typed(arg) => Parameter::from_read(arg, &read),
            FnArg::Receiver(_) => vstd::pervasive::unreached(),
        }
    }

    /// The parameter that an argument stands for, where there is one or an error in it.
    pub fn checked_from_arg(arg: &FnArg) -> (r: Option<Result<Parameter, Error>>)
        ensures
            exists|read: Seq<EntriesModel>|
                arg@.reads(read) && (match r {
                    Some(r) => Some(view_result(r)),
                    None => None,
                }) == #[trigger] ParameterModel::of_arg(arg@, read),
    {
        let read = arg.read_attributes();
        assert(arg is Receiver ==> ParameterModel::of_arg(arg@, view_each(read@)) is None);
        match arg {
            FnArg::Typed(arg) => if Parameter::is_readable(arg, &read) {
                Some(Parameter::from_read(arg, &read))
            } else {
                None
            },
            FnArg::Receiver(_) => None,
        }
    }

    pub(crate) fn is_regular(&self) -> (r: bool)
        ensures
            r == (self@ is Regular),
    {
        match self {
            Parameter::Regular { .. } => true,
            _ => false,
        }
    }

    /// The type of the parameter, without the lifetimes in it.
    pub fn get_type_without_lifetimes(&self) -> (r: Type)
        ensures
            r@ == self@.ty().without_lifetimes(),
    {
        match self {
            Parameter::Regular { ty, .. } => ty.without_lifetimes(),
            Parameter::VarArgs { ty, .. } => ty.without_lifetimes(),
            Parameter::Context(_, ty) => ty.without_lifetimes(),
            Parameter::Arguments(_, ty) => ty.without_lifetimes(),
        }
    }

    /// Writes the statement that reads the parameter, when `index` values have been read before.
    /// The literal holds the message for a value that is missing.
    pub fn statement_text(&self, index: usize, literal: &str) -> (r: String)
        ensures
            r@ == self@.statement_text(index as nat, literal@),
    {
        let ty = self.get_type_without_lifetimes();
        match self {
            Parameter::Regular { pat, conversion, strict, option, .. } => {
                let option: Option<&Type> = match option {
                    Some(option) => Some(option),
                    None => None,
                };
                regular_param_text(
                    pat,
                    &ty,
                    option,
                    conversion.as_str(),
                    *strict,
                    value_expression(index).as_str(),
                    literal,
                )
            },
            Parameter::VarArgs { pat, conversion, strict, .. } => varargs_param_text(
                index,
                pat,
                &ty,
                conversion.as_str(),
                *strict,
            ),
            Parameter::Context(pat, _) => variable_param_text(pat, &ty, "cx"),
            Parameter::Arguments(pat, _) => variable_param_text(pat, &ty, "args"),
        }
    }

    /// A literal with the message for a value of the parameter that is missing, where the parameter
    /// is converted from one value.
    pub(crate) fn missing_literal(&self, index: usize) -> (r: String)
        ensures
            self@.is_reported_by(index as nat, r@),
    {
        match self {
            Parameter::Regular { pat, .. } => string_literal(not_found_error(pat, index).as_str()),
            _ => String::new(),
        }
    }

    /// The statement that reads the parameter, when `index` values have been read before.
    pub fn to_statement(&self, index: &mut usize) -> (r: Result<Stmt, Error>)
        requires
            *old(index) + self@.width() <= usize::MAX,
        ensures
            exists|literal: Seq<char>, error: Option<ErrorModel>|
                self@.is_reported_by(*old(index) as nat, literal) && view_result(r)
                    == #[trigger] accepted(
                    self@.statement_text(*old(index) as nat, literal),
                    error,
                ),
            *final(index) == *old(index) + self@.width(),
    {
        let ghost at = *index as nat;
        let ty = self.get_type_without_lifetimes();
        match self {
            Parameter::Regular { pat, conversion, strict, option, .. } => {
                let value = value_expression(*index);
                let option: Option<&Type> = match option {
                    Some(option) => Some(option),
                    None => None,
                };
                *index += 1;
                let r = regular_param_statement(
                    *index - 1,
                    pat,
                    &ty,
                    option,
                    conversion.as_str(),
                    *strict,
                    value.as_str(),
                );
                proof {
                    let (literal, error) = choose|literal: Seq<char>, error: Option<ErrorModel>|
                        is_literal_of(literal, not_found_message(pat@.ident(), at)) && view_result(
                            r,
                        ) == #[trigger] accepted(
                            regular_text(
                                pat@,
                                ty@,
                                option is Some,
                                conversion@,
                                *strict,
                                value@,
                                literal,
                            ),
                            error,
                        );
                    assert(view_result(r) == accepted(self@.statement_text(at, literal), error));
                }
                r
            },
            Parameter::VarArgs { pat, conversion, strict, .. } => {
                let r = varargs_param_statement(*index, pat, &ty, conversion.as_str(), *strict);
                proof {
                    self.lemma_without_literal(r, at);
                }
                r
            },
            Parameter::Context(pat, _) => {
                let r = statement(variable_param_text(pat, &ty, "cx"));
                proof {
                    self.lemma_without_literal(r, at);
                }
                r
            },
            Parameter::Arguments(pat, _) => {
                let r = statement(variable_param_text(pat, &ty, "args"));
                proof {
                    self.lemma_without_literal(r, at);
                }
                r
            },
        }
    }

    proof fn lemma_without_literal(&self, r: Result<Stmt, Error>, index: nat)
        requires
            !(self@ is Regular),
            exists|error: Option<ErrorModel>|
                view_result(r) == #[trigger] accepted(
                    self@.statement_text(index, Seq::empty()),
                    error,
                ),
        ensures
            exists|literal: Seq<char>, error: Option<ErrorModel>|
                self@.is_reported_by(index, literal) && view_result(r) == #[trigger] accepted(
                    self@.statement_text(index, literal),
                    error,
                ),
    {
    }
}

} // verus!
