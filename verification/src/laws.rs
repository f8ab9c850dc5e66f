//! What holds of the library as a whole.
pub mod attribute;
pub mod parameter;
pub mod text;
pub mod types;
pub mod views;

use vstd::prelude::*;

use crate::attribute::{entries_from, list_entries, AnswerModel, EntriesModel};
use crate::parameter::ParameterModel;
use crate::parameters::{
    argument, idents_of, item_of, items_of, optional, parameter_args, parameters_of, required,
    this_of, width, ItemModel, ParametersModel,
};
use crate::statement::{all_accepted, joined};
use crate::syntax::{ArgModel, ErrorModel, PatTypeModel, Place, TokenModel};
use crate::text::{is_literal_of, unescaped};
use crate::this::ThisModel;
use crate::types::{ArgumentsModel, GenericModel, PieceModel, TypeModel};
use crate::visitors::{
    generics_have_lifetime, generics_mention_self, generics_with_self, generics_without_lifetimes,
    pieces_have_lifetime, pieces_mention_self, pieces_with_self, pieces_without_lifetimes,
};

verus! {

// Types.

/// A type whose lifetimes have been removed has none.
pub proof fn law_lifetimes_removed(ty: TypeModel)
    ensures
        !ty.without_lifetimes().has_lifetime(),
    decreases ty,
{
    match ty {
        TypeModel::Reference { elem, .. } => {
            law_lifetimes_removed(*elem);
        },
        TypeModel::Path { head, arguments, .. } => {
            lemma_pieces_removed(head);
            lemma_arguments_removed(arguments);
        },
        TypeModel::Sum(p) => {
            lemma_pieces_removed(p);
        },
        TypeModel::Other(p) => {
            lemma_pieces_removed(p);
        },
    }
}

proof fn lemma_arguments_removed(arguments: ArgumentsModel)
    ensures
        !arguments.without_lifetimes().has_lifetime(),
    decreases arguments,
{
    match arguments {
        ArgumentsModel::Absent => {},
        ArgumentsModel::AngleBracketed { args, .. } => {
            lemma_generics_removed(args);
        },
        ArgumentsModel::Parenthesized(p) => {
            lemma_pieces_removed(p);
        },
    }
}

proof fn lemma_pieces_removed(s: Seq<PieceModel>)
    ensures
        !pieces_have_lifetime(pieces_without_lifetimes(s)),
    decreases s,
{
    if s.len() > 0 {
        let rest = pieces_without_lifetimes(s.drop_last());
        lemma_pieces_removed(s.drop_last());
        match s.last() {
            PieceModel::Text(t) => {
                assert(rest.push(PieceModel::Text(t)).drop_last() =~= rest);
            },
            PieceModel::Lifetime(_) => {},
            PieceModel::Type(t) => {
                law_lifetimes_removed(t);
                assert(rest.push(PieceModel::Type(t.without_lifetimes())).drop_last() =~= rest);
            },
        }
    }
}

proof fn lemma_generics_removed(s: Seq<GenericModel>)
    ensures
        !generics_have_lifetime(generics_without_lifetimes(s)),
    decreases s,
{
    if s.len() > 0 {
        let rest = generics_without_lifetimes(s.drop_last());
        lemma_generics_removed(s.drop_last());
        match s.last() {
            GenericModel::Lifetime(_) => {},
            GenericModel::Type(t) => {
                law_lifetimes_removed(t);
                assert(rest.push(GenericModel::Type(t.without_lifetimes())).drop_last() =~= rest);
            },
            GenericModel::Other(p) => {
                lemma_pieces_removed(p);
                assert(rest.push(GenericModel::Other(pieces_without_lifetimes(p))).drop_last()
                    =~= rest);
            },
        }
    }
}

/// Removing the lifetimes of a type that has none changes nothing.
pub proof fn law_no_lifetimes_kept(ty: TypeModel)
    requires
        !ty.has_lifetime(),
    ensures
        ty.without_lifetimes() == ty,
    decreases ty,
{
    match ty {
        TypeModel::Reference { elem, .. } => {
            law_no_lifetimes_kept(*elem);
        },
        TypeModel::Path { head, arguments, .. } => {
            lemma_pieces_kept(head);
            lemma_arguments_kept(arguments);
        },
        TypeModel::Sum(p) => {
            lemma_pieces_kept(p);
        },
        TypeModel::Other(p) => {
            lemma_pieces_kept(p);
        },
    }
}

proof fn lemma_arguments_kept(arguments: ArgumentsModel)
    requires
        !arguments.has_lifetime(),
    ensures
        arguments.without_lifetimes() == arguments,
    decreases arguments,
{
    match arguments {
        ArgumentsModel::Absent => {},
        ArgumentsModel::AngleBracketed { args, .. } => {
            lemma_generics_kept(args);
        },
        ArgumentsModel::Parenthesized(p) => {
            lemma_pieces_kept(p);
        },
    }
}

proof fn lemma_pieces_kept(s: Seq<PieceModel>)
    requires
        !pieces_have_lifetime(s),
    ensures
        pieces_without_lifetimes(s) == s,
    decreases s,
{
    if s.len() > 0 {
        lemma_pieces_kept(s.drop_last());
        match s.last() {
            PieceModel::Type(t) => {
                law_no_lifetimes_kept(t);
            },
            _ => {},
        }
    }
    assert(pieces_without_lifetimes(s) =~= s);
}

proof fn lemma_generics_kept(s: Seq<GenericModel>)
    requires
        !generics_have_lifetime(s),
    ensures
        generics_without_lifetimes(s) == s,
    decreases s,
{
    if s.len() > 0 {
        lemma_generics_kept(s.drop_last());
        match s.last() {
            GenericModel::Lifetime(_) => {},
            GenericModel::Type(t) => {
                law_no_lifetimes_kept(t);
            },
            GenericModel::Other(p) => {
                lemma_pieces_kept(p);
            },
        }
    }
    assert(generics_without_lifetimes(s) =~= s);
}

/// Removing the lifetimes of a type twice is removing them once.
pub proof fn law_lifetimes_removed_once(ty: TypeModel)
    ensures
        ty.without_lifetimes().without_lifetimes() == ty.without_lifetimes(),
{
    law_lifetimes_removed(ty);
    law_no_lifetimes_kept(ty.without_lifetimes());
}

/// With a class type that does not mention `Self` in the place of `Self`, a type does not mention
/// `Self`.
pub proof fn law_self_replaced(ty: TypeModel, class: TypeModel)
    requires
        !class.mentions_self(),
    ensures
        !ty.with_self(class).mentions_self(),
    decreases ty,
{
    if !ty.is_self() {
        match ty {
            TypeModel::Reference { elem, .. } => {
                law_self_replaced(*elem, class);
            },
            TypeModel::Path { head, ident, arguments } => {
                lemma_pieces_replaced(head, class);
                lemma_arguments_replaced(arguments, class);
                lemma_pieces_with_self_len(head, class);
            },
            TypeModel::Sum(p) => {
                lemma_pieces_replaced(p, class);
            },
            TypeModel::Other(p) => {
                lemma_pieces_replaced(p, class);
            },
        }
    }
}

proof fn lemma_pieces_with_self_len(s: Seq<PieceModel>, class: TypeModel)
    ensures
        pieces_with_self(s, class).len() == s.len(),
    decreases s.len(),
{
    if s.len() > 0 {
        lemma_pieces_with_self_len(s.drop_last(), class);
    }
}

proof fn lemma_arguments_replaced(arguments: ArgumentsModel, class: TypeModel)
    requires
        !class.mentions_self(),
    ensures
        !arguments.with_self(class).mentions_self(),
        arguments.with_self(class) is Absent <==> arguments is Absent,
    decreases arguments,
{
    match arguments {
        ArgumentsModel::Absent => {},
        ArgumentsModel::AngleBracketed { args, .. } => {
            lemma_generics_replaced(args, class);
        },
        ArgumentsModel::Parenthesized(p) => {
            lemma_pieces_replaced(p, class);
        },
    }
}

proof fn lemma_pieces_replaced(s: Seq<PieceModel>, class: TypeModel)
    requires
        !class.mentions_self(),
    ensures
        !pieces_mention_self(pieces_with_self(s, class)),
    decreases s,
{
    if s.len() > 0 {
        lemma_pieces_replaced(s.drop_last(), class);
        let all = pieces_with_self(s, class);
        assert(all.drop_last() =~= pieces_with_self(s.drop_last(), class));
        match s.last() {
            PieceModel::Type(t) => {
                law_self_replaced(t, class);
            },
            _ => {},
        }
    }
}

proof fn lemma_generics_replaced(s: Seq<GenericModel>, class: TypeModel)
    requires
        !class.mentions_self(),
    ensures
        !generics_mention_self(generics_with_self(s, class)),
    decreases s,
{
    if s.len() > 0 {
        lemma_generics_replaced(s.drop_last(), class);
        let all = generics_with_self(s, class);
        assert(all.drop_last() =~= generics_with_self(s.drop_last(), class));
        match s.last() {
            GenericModel::Lifetime(_) => {},
            GenericModel::Type(t) => {
                law_self_replaced(t, class);
            },
            GenericModel::Other(p) => {
                lemma_pieces_replaced(p, class);
            },
        }
    }
}

/// Putting a class type in the place of `Self` changes nothing in a type that does not mention
/// `Self`.
pub proof fn law_no_self_kept(ty: TypeModel, class: TypeModel)
    requires
        !ty.mentions_self(),
    ensures
        ty.with_self(class) == ty,
    decreases ty,
{
    match ty {
        TypeModel::Reference { elem, .. } => {
            law_no_self_kept(*elem, class);
        },
        TypeModel::Path { head, arguments, .. } => {
            lemma_pieces_unreplaced(head, class);
            lemma_arguments_unreplaced(arguments, class);
        },
        TypeModel::Sum(p) => {
            lemma_pieces_unreplaced(p, class);
        },
        TypeModel::Other(p) => {
            lemma_pieces_unreplaced(p, class);
        },
    }
}

proof fn lemma_arguments_unreplaced(arguments: ArgumentsModel, class: TypeModel)
    requires
        !arguments.mentions_self(),
    ensures
        arguments.with_self(class) == arguments,
    decreases arguments,
{
    match arguments {
        ArgumentsModel::Absent => {},
        ArgumentsModel::AngleBracketed { args, .. } => {
            lemma_generics_unreplaced(args, class);
        },
        ArgumentsModel::Parenthesized(p) => {
            lemma_pieces_unreplaced(p, class);
        },
    }
}

proof fn lemma_pieces_unreplaced(s: Seq<PieceModel>, class: TypeModel)
    requires
        !pieces_mention_self(s),
    ensures
        pieces_with_self(s, class) == s,
    decreases s,
{
    if s.len() > 0 {
        lemma_pieces_unreplaced(s.drop_last(), class);
        match s.last() {
            PieceModel::Type(t) => {
                law_no_self_kept(t, class);
            },
            _ => {},
        }
    }
    assert(pieces_with_self(s, class) =~= s);
}

proof fn lemma_generics_unreplaced(s: Seq<GenericModel>, class: TypeModel)
    requires
        !generics_mention_self(s),
    ensures
        generics_with_self(s, class) == s,
    decreases s,
{
    if s.len() > 0 {
        lemma_generics_unreplaced(s.drop_last(), class);
        match s.last() {
            GenericModel::Lifetime(_) => {},
            GenericModel::Type(t) => {
                law_no_self_kept(t, class);
            },
            GenericModel::Other(p) => {
                lemma_pieces_unreplaced(p, class);
            },
        }
    }
    assert(generics_with_self(s, class) =~= s);
}

// Literals.

proof fn lemma_plain(s: Seq<char>)
    requires
        forall|i: int|
            0 <= i < s.len() ==> (#[trigger] s[i]) != '"' && s[i] != '\\' && s[i] != '\r',
    ensures
        unescaped(s) == Some(s),
    decreases s.len(),
{
    if s.len() > 0 {
        let rest = s.skip(1);
        assert forall|i: int| 0 <= i < rest.len() implies (#[trigger] rest[i]) != '"' && rest[i]
            != '\\' && rest[i] != '\r' by {
            assert(rest[i] == s[i + 1]);
        }
        lemma_plain(rest);
        assert(seq![s[0]] + rest =~= s);
    } else {
        assert(s =~= Seq::empty());
    }
}

/// A text without quotes, backslashes and carriage returns, between quotes, is the literal of
/// itself, and of no other value.
pub proof fn law_plain_literal(s: Seq<char>, value: Seq<char>)
    requires
        forall|i: int|
            0 <= i < s.len() ==> (#[trigger] s[i]) != '"' && s[i] != '\\' && s[i] != '\r',
    ensures
        is_literal_of(seq!['"'] + s + seq!['"'], value) <==> value == s,
{
    let text = seq!['"'] + s + seq!['"'];
    assert(text.subrange(1, text.len() - 1) =~= s);
    lemma_plain(s);
}

// Attributes.

proof fn lemma_entries_certain(
    tokens: Seq<TokenModel>,
    close: Place,
    a: Seq<AnswerModel>,
    b: Seq<AnswerModel>,
    at: int,
)
    requires
        0 <= at,
        forall|i: int| 0 <= i < tokens.len() ==> (#[trigger] tokens[i]).text != "convert"@,
    ensures
        entries_from(tokens, close, a, at) == entries_from(tokens, close, b, at),
    decreases tokens.len() + 1 - at,
{
    if at < tokens.len() {
        assert(tokens[at].text != "convert"@);
        if at + 1 < tokens.len() {
            lemma_entries_certain(tokens, close, a, b, at + 2);
        }
    }
}

/// A list without a conversion is read in one way only, whatever a parser says of expressions.
pub proof fn law_entries_certain(
    tokens: Seq<TokenModel>,
    close: Place,
    a: Seq<AnswerModel>,
    b: Seq<AnswerModel>,
)
    requires
        forall|i: int| 0 <= i < tokens.len() ==> (#[trigger] tokens[i]).text != "convert"@,
    ensures
        list_entries(tokens, close, a) == list_entries(tokens, close, b),
{
    lemma_entries_certain(tokens, close, a, b, 0);
}

// Receivers.

/// A class method takes its receiver by reference, so that there is always code that gets it.
pub proof fn law_class_receiver_by_reference(
    arg: ArgModel,
    read: Seq<EntriesModel>,
    class: TypeModel,
    this: ThisModel,
)
    requires
        ThisModel::of(arg, read, Some(class)) == Some(Ok::<Option<ThisModel>, ErrorModel>(Some(this))),
    ensures
        this.kind is Ref,
        this.statement_texts(true) is Ok,
        this.async_class_texts() is Ok,
{
}

/// A receiver that is written `self` is only taken in a class: without one, the function is
/// refused, unless it is refused for what stands before.
pub proof fn law_self_needs_class(args: Seq<ArgModel>, read: Seq<Seq<EntriesModel>>, i: int)
    requires
        args.len() == read.len(),
        0 <= i < args.len(),
        args[i] is Receiver,
    ensures
        !(ParametersModel::of(args, read, None) matches Some(Ok(_))),
    decreases args.len(),
{
    if i < args.len() - 1 {
        assert(args.drop_last()[i] == args[i]);
        law_self_needs_class(args.drop_last(), read.drop_last(), i);
    }
}

/// A function without a receiver needs no code that gets it.
pub proof fn law_no_receiver(
    parameters: ParametersModel,
    is_class: bool,
    is_async: bool,
    error: Option<ErrorModel>,
    errors: Seq<Option<ErrorModel>>,
)
    requires
        parameters.this is None,
    ensures
        parameters.this_statements(is_class, is_async, error, errors) == Ok::<
            Seq<char>,
            ErrorModel,
        >(Seq::empty()),
        parameters.args() == parameter_args(parameters.parameters),
{
    assert(parameters.args() =~= parameter_args(parameters.parameters));
}

/// The receiver of a class method is taken by reference.
pub proof fn law_class_method_receiver(
    args: Seq<ArgModel>,
    read: Seq<Seq<EntriesModel>>,
    class: TypeModel,
    parsed: ParametersModel,
)
    requires
        args.len() == read.len(),
        ParametersModel::of(args, read, Some(class)) == Some(
            Ok::<ParametersModel, ErrorModel>(parsed),
        ),
    ensures
        parsed.this matches Some((this, _)) ==> this.kind is Ref,
{
    let items = items_of(args, read, Some(class))->Some_0->Ok_0;
    lemma_items_len(args, read, Some(class), items);
    law_last_receiver(items);
    if parsed.this is Some {
        let this = parsed.this.unwrap().0;
        let i = choose|i: int| 0 <= i < items.len() && #[trigger] items[i] == ItemModel::This(this);
        assert(item_of(args[i], read[i], Some(class)) == Some(
            Ok::<ItemModel, ErrorModel>(items[i]),
        ));
        law_class_receiver_by_reference(args[i], read[i], class, this);
    }
}

/// The receiver of a function is the last argument that stands for one and binds a name.
pub proof fn law_last_receiver(items: Seq<ItemModel>)
    ensures
        this_of(items) matches Some((this, ident)) ==> this.pat.ident() == Some(ident) && exists|
            i: int,
        |
            0 <= i < items.len() && #[trigger] items[i] == ItemModel::This(this) && forall|j: int|
                i < j < items.len() ==> ((#[trigger] items[j]) matches ItemModel::This(later)
                    ==> later.pat.ident() is None),
        this_of(items) is None ==> forall|j: int|
            0 <= j < items.len() ==> ((#[trigger] items[j]) matches ItemModel::This(other)
                ==> other.pat.ident() is None),
    decreases items.len(),
{
    if items.len() > 0 {
        let before = items.drop_last();
        law_last_receiver(before);
        let last = items.len() - 1;
        let kept = match items.last() {
            ItemModel::This(this) => this.pat.ident() is Some,
            ItemModel::Parameter(_) => false,
        };
        if kept {
            assert(items[last] == ItemModel::This(this_of(items).unwrap().0));
        } else {
            assert(forall|j: int| 0 <= j < last ==> #[trigger] items[j] == before[j]);
            if this_of(before) is Some {
                let this = this_of(before).unwrap().0;
                let i = choose|i: int|
                    0 <= i < before.len() && #[trigger] before[i] == ItemModel::This(this)
                        && forall|j: int|
                        i < j < before.len() ==> ((#[trigger] before[j]) matches ItemModel::This(
                            later,
                        ) ==> later.pat.ident() is None);
                assert(items[i] == ItemModel::This(this));
            }
        }
    }
}

// Parameters.

proof fn lemma_items_len(
    args: Seq<ArgModel>,
    read: Seq<Seq<EntriesModel>>,
    class: Option<TypeModel>,
    items: Seq<ItemModel>,
)
    requires
        args.len() == read.len(),
        items_of(args, read, class) == Some(Ok::<Seq<ItemModel>, ErrorModel>(items)),
    ensures
        items.len() == args.len(),
        forall|i: int|
            0 <= i < args.len() ==> item_of(#[trigger] args[i], read[i], class) == Some(
                Ok::<ItemModel, ErrorModel>(items[i]),
            ),
    decreases args.len(),
{
    if args.len() > 0 {
        let before = items_of(args.drop_last(), read.drop_last(), class)->Some_0->Ok_0;
        lemma_items_len(args.drop_last(), read.drop_last(), class, before);
        assert forall|i: int| 0 <= i < args.len() implies item_of(
            #[trigger] args[i],
            read[i],
            class,
        ) == Some(Ok::<ItemModel, ErrorModel>(items[i])) by {
            if i < args.len() - 1 {
                assert(args.drop_last()[i] == args[i]);
                assert(read.drop_last()[i] == read[i]);
            }
        }
    }
}

proof fn lemma_counts(parameters: Seq<ParameterModel>)
    ensures
        required(parameters) + optional(parameters) == width(parameters),
        width(parameters) <= parameters.len(),
        idents_of(parameters).len() <= parameters.len(),
    decreases parameters.len(),
{
    if parameters.len() > 0 {
        lemma_counts(parameters.drop_last());
    }
}

proof fn lemma_parameters_of(items: Seq<ItemModel>)
    ensures
        parameters_of(items).len() <= items.len(),
        (forall|i: int| 0 <= i < items.len() ==> #[trigger] items[i] is Parameter)
            ==> parameters_of(items).len() == items.len() && forall|i: int|
            0 <= i < items.len() ==> #[trigger] items[i] == ItemModel::Parameter(
                parameters_of(items)[i],
            ),
    decreases items.len(),
{
    if items.len() > 0 {
        let before = items.drop_last();
        lemma_parameters_of(before);
        if forall|i: int| 0 <= i < items.len() ==> #[trigger] items[i] is Parameter {
            assert forall|i: int| 0 <= i < before.len() implies #[trigger] before[i] is Parameter by {
                assert(items[i] is Parameter);
            }
            assert(items[items.len() - 1] is Parameter);
            assert forall|i: int| 0 <= i < items.len() implies #[trigger] items[i]
                == ItemModel::Parameter(parameters_of(items)[i]) by {
                if i < before.len() {
                    assert(before[i] == items[i]);
                }
            }
        }
    }
}

/// The values that a call has to give and those that it may give are together as many as the
/// parameters that are converted from one value; there are no more parameters than arguments, and
/// no more names than parameters.
pub proof fn law_counts(
    args: Seq<ArgModel>,
    read: Seq<Seq<EntriesModel>>,
    class: Option<TypeModel>,
    parsed: ParametersModel,
)
    requires
        args.len() == read.len(),
        ParametersModel::of(args, read, class) == Some(
            Ok::<ParametersModel, ErrorModel>(parsed),
        ),
    ensures
        parsed.nargs.0 + parsed.nargs.1 == width(parsed.parameters),
        width(parsed.parameters) <= parsed.parameters.len(),
        parsed.parameters.len() <= args.len(),
        parsed.idents.len() <= parsed.parameters.len(),
{
    let items = items_of(args, read, class)->Some_0->Ok_0;
    lemma_items_len(args, read, class, items);
    lemma_parameters_of(items);
    lemma_counts(parsed.parameters);
}

/// Where no argument stands for a receiver, each argument is a parameter, in the same order.
pub proof fn law_order(
    args: Seq<ArgModel>,
    read: Seq<Seq<EntriesModel>>,
    class: Option<TypeModel>,
    parsed: ParametersModel,
)
    requires
        args.len() == read.len(),
        ParametersModel::of(args, read, class) == Some(
            Ok::<ParametersModel, ErrorModel>(parsed),
        ),
        forall|i: int|
            0 <= i < args.len() ==> ThisModel::of(#[trigger] args[i], read[i], class) == Some(
                Ok::<Option<ThisModel>, ErrorModel>(None),
            ),
    ensures
        parsed.this is None,
        parsed.parameters.len() == args.len(),
        forall|i: int|
            0 <= i < args.len() ==> ((#[trigger] args[i]) matches ArgModel::Typed(arg)
                && ParameterModel::of(arg, read[i]) == Some(
                Ok::<ParameterModel, ErrorModel>(parsed.parameters[i]),
            )),
{
    let items = items_of(args, read, class)->Some_0->Ok_0;
    lemma_items_len(args, read, class, items);
    assert forall|i: int| 0 <= i < items.len() implies #[trigger] items[i] is Parameter by {
        assert(item_of(args[i], read[i], class) == Some(Ok::<ItemModel, ErrorModel>(items[i])));
    }
    lemma_parameters_of(items);
    law_last_receiver(items);
    assert forall|i: int| 0 <= i < args.len() implies ((#[trigger] args[i]) matches ArgModel::Typed(
        arg,
    ) && ParameterModel::of(arg, read[i]) == Some(
        Ok::<ParameterModel, ErrorModel>(parsed.parameters[i]),
    )) by {
        assert(items[i] == ItemModel::Parameter(parsed.parameters[i]));
    }
}

/// The first error in the arguments is the error of the function, whatever follows.
pub proof fn law_first_error(
    args: Seq<ArgModel>,
    read: Seq<Seq<EntriesModel>>,
    class: Option<TypeModel>,
    n: int,
    e: ErrorModel,
)
    requires
        args.len() == read.len(),
        0 <= n < args.len(),
        items_of(args.take(n), read.take(n), class) matches Some(Ok(_)),
        item_of(args[n], read[n], class) == Some(Err::<ItemModel, ErrorModel>(e)),
    ensures
        ParametersModel::of(args, read, class) == Some(Err::<ParametersModel, ErrorModel>(e)),
    decreases args.len(),
{
    if n < args.len() - 1 {
        assert(args.drop_last().take(n) =~= args.take(n));
        assert(read.drop_last().take(n) =~= read.take(n));
        law_first_error(args.drop_last(), read.drop_last(), class, n, e);
    } else {
        assert(args.take(n) =~= args.drop_last());
        assert(read.take(n) =~= read.drop_last());
    }
}

// Statements.

proof fn lemma_width_grows(parameters: Seq<ParameterModel>, i: int, j: int)
    requires
        0 <= i <= j <= parameters.len(),
    ensures
        width(parameters.take(i)) <= width(parameters.take(j)),
        i < j && parameters[i] is Regular ==> width(parameters.take(i)) < width(
            parameters.take(j),
        ),
    decreases j - i,
{
    if i < j {
        assert(parameters.take(j).drop_last() =~= parameters.take(j - 1));
        lemma_width_grows(parameters, i, j - 1);
    }
}

/// No two parameters that are converted from one value are converted from the same one, and later
/// parameters take later values.
pub proof fn law_values_distinct(parameters: Seq<ParameterModel>, i: int, j: int)
    requires
        0 <= i < j < parameters.len(),
        parameters[i] is Regular,
        parameters[j] is Regular,
    ensures
        width(parameters.take(i)) < width(parameters.take(j)) < width(parameters),
{
    lemma_width_grows(parameters, i, j);
    lemma_width_grows(parameters, j, parameters.len() as int);
    assert(parameters.take(parameters.len() as int) =~= parameters);
}

/// No value is passed over: each of those that are taken one by one is taken by a parameter.
pub proof fn law_values_covered(parameters: Seq<ParameterModel>, value: nat)
    requires
        value < width(parameters),
    ensures
        exists|i: int|
            0 <= i < parameters.len() && (#[trigger] parameters[i]) is Regular && width(
                parameters.take(i),
            ) == value,
    decreases parameters.len(),
{
    let before = parameters.drop_last();
    let last = parameters.len() - 1;
    if value < width(before) {
        law_values_covered(before, value);
        let i = choose|i: int|
            0 <= i < before.len() && (#[trigger] before[i]) is Regular && width(before.take(i))
                == value;
        assert(before.take(i) =~= parameters.take(i));
        assert(parameters[i] is Regular);
    } else {
        assert(parameters.take(last) =~= before);
        assert(parameters[last] is Regular);
    }
}

/// Parameters that differ only in the lifetimes of their types are read by the same statement.
pub proof fn law_lifetimes_do_not_matter(
    a: ParameterModel,
    b: ParameterModel,
    index: nat,
    literal: Seq<char>,
)
    requires
        a.ty().without_lifetimes() == b.ty().without_lifetimes(),
        a.pat() == b.pat(),
        match (a, b) {
            (
                ParameterModel::Regular { conversion: c1, strict: s1, option: o1, .. },
                ParameterModel::Regular { conversion: c2, strict: s2, option: o2, .. },
            ) => c1 == c2 && s1 == s2 && (o1 is Some <==> o2 is Some),
            (
                ParameterModel::VarArgs { conversion: c1, strict: s1, .. },
                ParameterModel::VarArgs { conversion: c2, strict: s2, .. },
            ) => c1 == c2 && s1 == s2,
            (ParameterModel::Context(..), ParameterModel::Context(..)) => true,
            (ParameterModel::Arguments(..), ParameterModel::Arguments(..)) => true,
            _ => false,
        },
    ensures
        a.statement_text(index, literal) == b.statement_text(index, literal),
{
}

/// Statements are given out if and only if there is an error in none of them, and then they have
/// the texts that were written for them.
pub proof fn law_statements(texts: Seq<Seq<char>>, errors: Seq<Option<ErrorModel>>)
    ensures
        all_accepted(texts, errors) is Ok <==> forall|i: int|
            0 <= i < texts.len() ==> #[trigger] errors[i] is None,
        all_accepted(texts, errors) matches Ok(statements) ==> statements == texts,
    decreases texts.len(),
{
    if texts.len() > 0 {
        let last = texts.len() - 1;
        law_statements(texts.drop_last(), errors);
        if all_accepted(texts, errors) is Ok {
            assert forall|i: int| 0 <= i < texts.len() implies #[trigger] errors[i] is None by {
                if i < last {
                    assert(0 <= i < texts.drop_last().len());
                }
            }
            assert(all_accepted(texts, errors)->Ok_0 =~= texts);
        } else if forall|i: int| 0 <= i < texts.len() ==> #[trigger] errors[i] is None {
            assert(errors[last] is None);
            assert(forall|i: int| 0 <= i < last ==> #[trigger] errors[i] is None);
        }
    } else {
        assert(all_accepted(texts, errors)->Ok_0 =~= texts);
    }
}

/// The first error in the statements is the one that is given.
pub proof fn law_first_statement_error(
    texts: Seq<Seq<char>>,
    errors: Seq<Option<ErrorModel>>,
    n: int,
    e: ErrorModel,
)
    requires
        0 <= n < texts.len(),
        forall|i: int| 0 <= i < n ==> #[trigger] errors[i] is None,
        errors[n] == Some(e),
    ensures
        all_accepted(texts, errors) == Err::<Seq<Seq<char>>, ErrorModel>(e),
    decreases texts.len(),
{
    if n < texts.len() - 1 {
        law_first_statement_error(texts.drop_last(), errors, n, e);
    } else {
        law_statements(texts.drop_last(), errors);
    }
}

/// The error in the first statement that is refused is the one that is given for all the
/// parameters of a function.
pub proof fn law_first_parameter_error(
    parameters: ParametersModel,
    literals: Seq<Seq<char>>,
    errors: Seq<Option<ErrorModel>>,
    n: int,
    e: ErrorModel,
)
    requires
        0 <= n < parameters.parameters.len(),
        forall|i: int| 0 <= i < n ==> #[trigger] errors[i] is None,
        errors[n] == Some(e),
    ensures
        parameters.statements(literals, errors) == Err::<Seq<Seq<char>>, ErrorModel>(e),
{
    law_first_statement_error(parameters.statement_texts(literals), errors, n, e);
}

/// Where no statement is refused, there is one for each parameter, with the text that was written
/// for it.
pub proof fn law_parameter_statements(
    parameters: ParametersModel,
    literals: Seq<Seq<char>>,
    errors: Seq<Option<ErrorModel>>,
)
    requires
        forall|i: int| 0 <= i < parameters.parameters.len() ==> #[trigger] errors[i] is None,
    ensures
        parameters.statements(literals, errors) == Ok::<Seq<Seq<char>>, ErrorModel>(
            parameters.statement_texts(literals),
        ),
{
    law_statements(parameters.statement_texts(literals), errors);
}

/// An asynchronous class method: the error in the declaration of the receiver comes before those in
/// the statements that give it its value, and of those the first is given; where there is none, the
/// declaration stands before a block with them.
pub proof fn law_async_code(
    parameters: ParametersModel,
    this: ThisModel,
    ident: Seq<char>,
    error: Option<ErrorModel>,
    errors: Seq<Option<ErrorModel>>,
)
    requires
        parameters.this == Some((this, ident)),
        this.kind is Ref,
    ensures
        ({
            let (pre, inner) = this.async_class_texts()->Ok_0;
            parameters.this_statements(true, true, error, errors) == (match error {
                Some(e) => Err::<Seq<char>, ErrorModel>(e),
                None => match all_accepted(inner, errors) {
                    Err(e) => Err(e),
                    Ok(_) => Ok(pre + " { "@ + joined(inner) + " }"@),
                },
            })
        }),
{
    law_statements(this.async_class_texts()->Ok_0.1, errors);
}

/// Any other function with a receiver: the first error in the statements that get it is given, and
/// where there is none, the statements stand one after the other.
pub proof fn law_code(
    parameters: ParametersModel,
    this: ThisModel,
    ident: Seq<char>,
    is_class: bool,
    is_async: bool,
    error: Option<ErrorModel>,
    errors: Seq<Option<ErrorModel>>,
)
    requires
        parameters.this == Some((this, ident)),
        !(is_class && is_async),
        !is_class || this.kind is Ref,
    ensures
        ({
            let texts = this.statement_texts(is_class)->Ok_0;
            parameters.this_statements(is_class, is_async, error, errors) == (match all_accepted(
                texts,
                errors,
            ) {
                Err(e) => Err::<Seq<char>, ErrorModel>(e),
                Ok(_) => Ok(joined(texts)),
            })
        }),
{
    law_statements(this.statement_texts(is_class)->Ok_0, errors);
}

/// The function that takes the parameters has an argument for each of them, after one for the
/// receiver.
pub proof fn law_args(parameters: ParametersModel)
    ensures
        parameters.args().len() == parameters.parameters.len() + (if parameters.this is Some {
            1nat
        } else {
            0nat
        }),
{
}

proof fn lemma_parameter_of(arg: PatTypeModel, read: Seq<EntriesModel>, parameter: ParameterModel)
    requires
        ParameterModel::of(arg, read) == Some(Ok::<ParameterModel, ErrorModel>(parameter)),
    ensures
        parameter.pat() == arg.pat,
        parameter.ty() == arg.ty,
{
}

/// Where no argument stands for a receiver, the function that takes the parameters has the
/// arguments that they were parsed from: `pattern: Type` for each of them, at the place of the
/// pattern.
pub proof fn law_args_kept(
    args: Seq<ArgModel>,
    read: Seq<Seq<EntriesModel>>,
    class: Option<TypeModel>,
    parsed: ParametersModel,
)
    requires
        args.len() == read.len(),
        ParametersModel::of(args, read, class) == Some(
            Ok::<ParametersModel, ErrorModel>(parsed),
        ),
        forall|i: int|
            0 <= i < args.len() ==> ThisModel::of(#[trigger] args[i], read[i], class) == Some(
                Ok::<Option<ThisModel>, ErrorModel>(None),
            ),
    ensures
        parsed.args().len() == args.len(),
        forall|i: int|
            0 <= i < args.len() ==> ((#[trigger] args[i]) matches ArgModel::Typed(arg)
                && parsed.args()[i] == argument(arg.pat, arg.ty.text())),
{
    law_order(args, read, class, parsed);
    assert(parsed.args() =~= parameter_args(parsed.parameters));
    assert forall|i: int| 0 <= i < args.len() implies ((#[trigger] args[i]) matches ArgModel::Typed(
        arg,
    ) && parsed.args()[i] == argument(arg.pat, arg.ty.text())) by {
        let arg = args[i]->Typed_0;
        lemma_parameter_of(arg, read[i], parsed.parameters[i]);
    }
}

// Concatenation.

proof fn lemma_items_concat(
    a: Seq<ArgModel>,
    b: Seq<ArgModel>,
    read_a: Seq<Seq<EntriesModel>>,
    read_b: Seq<Seq<EntriesModel>>,
    class: Option<TypeModel>,
)
    requires
        a.len() == read_a.len(),
        b.len() == read_b.len(),
        items_of(a, read_a, class) matches Some(Ok(_)),
    ensures
        items_of(a + b, read_a + read_b, class) == (match items_of(b, read_b, class) {
            Some(Ok(items)) => Some(
                Ok::<Seq<ItemModel>, ErrorModel>(items_of(a, read_a, class)->Some_0->Ok_0 + items),
            ),
            other => other,
        }),
    decreases b.len(),
{
    let first = items_of(a, read_a, class)->Some_0->Ok_0;
    if b.len() == 0 {
        assert(a + b =~= a);
        assert(read_a + read_b =~= read_a);
        assert(first + Seq::<ItemModel>::empty() =~= first);
    } else {
        lemma_items_concat(a, b.drop_last(), read_a, read_b.drop_last(), class);
        assert((a + b).drop_last() =~= a + b.drop_last());
        assert((read_a + read_b).drop_last() =~= read_a + read_b.drop_last());
        if items_of(b, read_b, class) matches Some(Ok(_)) {
            let before = items_of(b.drop_last(), read_b.drop_last(), class)->Some_0->Ok_0;
            let item = item_of(b.last(), read_b.last(), class)->Some_0->Ok_0;
            assert((first + before).push(item) =~= first + before.push(item));
        }
    }
}

proof fn lemma_of_concat(a: Seq<ItemModel>, b: Seq<ItemModel>)
    ensures
        parameters_of(a + b) == parameters_of(a) + parameters_of(b),
        this_of(a + b) == (if this_of(b) is Some {
            this_of(b)
        } else {
            this_of(a)
        }),
    decreases b.len(),
{
    if b.len() == 0 {
        assert(a + b =~= a);
        assert(parameters_of(a) + parameters_of(b) =~= parameters_of(a));
    } else {
        lemma_of_concat(a, b.drop_last());
        assert((a + b).drop_last() =~= a + b.drop_last());
        assert(parameters_of(a + b) =~= parameters_of(a) + parameters_of(b));
    }
}

proof fn lemma_counts_concat(a: Seq<ParameterModel>, b: Seq<ParameterModel>)
    ensures
        idents_of(a + b) == idents_of(a) + idents_of(b),
        required(a + b) == required(a) + required(b),
        optional(a + b) == optional(a) + optional(b),
    decreases b.len(),
{
    if b.len() == 0 {
        assert(a + b =~= a);
        assert(idents_of(a) + idents_of(b) =~= idents_of(a));
    } else {
        lemma_counts_concat(a, b.drop_last());
        assert((a + b).drop_last() =~= a + b.drop_last());
        assert(idents_of(a + b) =~= idents_of(a) + idents_of(b));
    }
}

/// Arguments that stand one after the other give the parameters and the names of the first and then
/// those of the second; the values are counted together, and the receiver is that of the second, or
/// else that of the first. An error in the second is the error of both.
pub proof fn law_concat(
    a: Seq<ArgModel>,
    b: Seq<ArgModel>,
    read_a: Seq<Seq<EntriesModel>>,
    read_b: Seq<Seq<EntriesModel>>,
    class: Option<TypeModel>,
    first: ParametersModel,
)
    requires
        a.len() == read_a.len(),
        b.len() == read_b.len(),
        ParametersModel::of(a, read_a, class) == Some(Ok::<ParametersModel, ErrorModel>(first)),
    ensures
        ParametersModel::of(a + b, read_a + read_b, class) == (match ParametersModel::of(
            b,
            read_b,
            class,
        ) {
            Some(Ok(second)) => Some(
                Ok::<ParametersModel, ErrorModel>(
                    ParametersModel {
                        parameters: first.parameters + second.parameters,
                        this: if second.this is Some {
                            second.this
                        } else {
                            first.this
                        },
                        idents: first.idents + second.idents,
                        nargs: (
                            first.nargs.0 + second.nargs.0,
                            first.nargs.1 + second.nargs.1,
                        ),
                    },
                ),
            ),
            other => other,
        }),
{
    lemma_items_concat(a, b, read_a, read_b, class);
    if items_of(b, read_b, class) matches Some(Ok(_)) {
        let items_a = items_of(a, read_a, class)->Some_0->Ok_0;
        let items_b = items_of(b, read_b, class)->Some_0->Ok_0;
        lemma_of_concat(items_a, items_b);
        lemma_counts_concat(parameters_of(items_a), parameters_of(items_b));
    }
}

} // verus!
