//! What holds of what arguments stand for: which parameter, which receiver, which names and counts.
use vstd::prelude::*;

use crate::attribute::{all_entries, last_conversion, marks_this};
use crate::attribute::{EntriesModel, EntryModel};
use crate::laws::law_order;
use crate::parameter::ParameterModel;
use crate::parameters::{
    accepted_args, idents_of, item_of, items_of, optional, parameters_of, required, this_of, width,
    ArgumentModel, ItemModel, ParametersModel,
};
use crate::statement::accepted;
use crate::syntax::{
    ArgModel, AttributeModel, ErrorModel, PatModel, PatTypeModel, Place, ReceiverModel,
};
use crate::text::{decimal_digits, is_literal_of};
use crate::this::{receiver_of, KindModel, ThisModel};
use crate::types::{ArgumentsModel, PieceModel, TypeModel};

verus! {

// What the attributes of an argument hold.

/// The entry `e` stands at place `j` of the attribute `k`.
pub open spec fn holds(read: Seq<EntriesModel>, k: int, j: int, e: EntryModel) -> bool {
    0 <= k < read.len() && read[k] is Ok && 0 <= j < read[k]->Ok_0.len() && read[k]->Ok_0[j] == e
}

/// The entry stands somewhere in the attributes.
pub open spec fn somewhere(read: Seq<EntriesModel>, e: EntryModel) -> bool {
    exists|k: int, j: int| holds(read, k, j, e)
}

/// The conversion is that of an entry that no other conversion stands after.
pub open spec fn is_last_conversion(read: Seq<EntriesModel>, conversion: Seq<char>) -> bool {
    exists|k: int, j: int|
        #[trigger] holds(read, k, j, EntryModel::Convert(conversion)) && forall|
            k2: int,
            j2: int,
            c: Seq<char>,
        | #[trigger]
            holds(read, k2, j2, EntryModel::Convert(c)) ==> k2 < k || (k2 == k && j2 <= j)
}

/// No attribute holds a conversion.
pub open spec fn no_conversion(read: Seq<EntriesModel>) -> bool {
    forall|k: int, j: int, c: Seq<char>| !(#[trigger] holds(read, k, j, EntryModel::Convert(c)))
}

/// The error is the first one in the attributes.
pub open spec fn is_first_error(read: Seq<EntriesModel>, k: int, e: ErrorModel) -> bool {
    &&& 0 <= k < read.len()
    &&& read[k] == Err::<Seq<EntryModel>, ErrorModel>(e)
    &&& forall|i: int| 0 <= i < k ==> (#[trigger] read[i]) is Ok
}

proof fn lemma_errors(read: Seq<EntriesModel>)
    ensures
        all_entries(read) is Ok <==> forall|i: int| 0 <= i < read.len() ==> (#[trigger] read[i])
            is Ok,
        all_entries(read) matches Err(e) ==> exists|k: int| is_first_error(read, k, e),
    decreases read.len(),
{
    if read.len() > 0 {
        let before = read.drop_last();
        let last = read.len() - 1;
        lemma_errors(before);
        assert(forall|i: int| 0 <= i < last ==> #[trigger] before[i] == read[i]);
        if all_entries(before) is Err {
            let e = all_entries(before)->Err_0;
            let k = choose|k: int| is_first_error(before, k, e);
            assert(before[k] == read[k]);
            assert forall|i: int| 0 <= i < k implies (#[trigger] read[i]) is Ok by {
                assert(before[i] is Ok);
            }
            assert(is_first_error(read, k, e));
            assert(!(read[k] is Ok));
        } else {
            assert forall|i: int| 0 <= i < last implies (#[trigger] read[i]) is Ok by {
                assert(before[i] is Ok);
            }
            if read[last] is Err {
                assert(is_first_error(read, last, read[last]->Err_0));
            }
        }
    }
}

proof fn lemma_entries(read: Seq<EntriesModel>, e: EntryModel)
    requires
        all_entries(read) is Ok,
    ensures
        all_entries(read)->Ok_0.contains(e) <==> somewhere(read, e),
    decreases read.len(),
{
    if read.len() > 0 {
        let before = read.drop_last();
        let last = read.len() - 1;
        let here = read[last]->Ok_0;
        let all = all_entries(read)->Ok_0;
        let some = all_entries(before)->Ok_0;
        lemma_entries(before, e);
        assert(all == some + here);
        if all.contains(e) {
            let i = choose|i: int| 0 <= i < all.len() && all[i] == e;
            if i < some.len() {
                assert(some[i] == e);
                let (k, j) = choose|k: int, j: int| holds(before, k, j, e);
                assert(holds(read, k, j, e));
            } else {
                assert(holds(read, last, i - some.len(), e));
            }
        }
        if somewhere(read, e) {
            let (k, j) = choose|k: int, j: int| holds(read, k, j, e);
            if k < last {
                assert(holds(before, k, j, e));
                let i = choose|i: int| 0 <= i < some.len() && some[i] == e;
                assert(all[i] == e);
            } else {
                assert(all[some.len() + j] == e);
            }
        }
    } else {
        assert(!all_entries(read)->Ok_0.contains(e));
    }
}

proof fn lemma_last_in(entries: Seq<EntryModel>)
    ensures
        last_conversion(entries) matches Some(c) ==> exists|j: int|
            0 <= j < entries.len() && #[trigger] entries[j] == EntryModel::Convert(c) && forall|
                i: int,
            |
                j < i < entries.len() ==> !(#[trigger] entries[i] is Convert),
        last_conversion(entries) is None ==> forall|i: int|
            0 <= i < entries.len() ==> !(#[trigger] entries[i] is Convert),
    decreases entries.len(),
{
    if entries.len() > 0 {
        let before = entries.drop_last();
        let last = entries.len() - 1;
        if entries[last] is Convert {
            assert(entries[last] == EntryModel::Convert(last_conversion(entries).unwrap()));
        } else {
            lemma_last_in(before);
            assert(forall|i: int| 0 <= i < last ==> #[trigger] entries[i] == before[i]);
            if last_conversion(before) is Some {
                let c = last_conversion(before).unwrap();
                let j = choose|j: int|
                    0 <= j < before.len() && #[trigger] before[j] == EntryModel::Convert(c)
                        && forall|i: int|
                        j < i < before.len() ==> !(#[trigger] before[i] is Convert);
                assert(entries[j] == EntryModel::Convert(c));
            }
        }
    }
}

proof fn lemma_last_of_both(a: Seq<EntryModel>, b: Seq<EntryModel>)
    ensures
        last_conversion(a + b) == (if last_conversion(b) is Some {
            last_conversion(b)
        } else {
            last_conversion(a)
        }),
    decreases b.len(),
{
    if b.len() == 0 {
        assert(a + b =~= a);
    } else {
        assert((a + b).drop_last() =~= a + b.drop_last());
        lemma_last_of_both(a, b.drop_last());
    }
}

proof fn lemma_last(read: Seq<EntriesModel>)
    requires
        all_entries(read) is Ok,
    ensures
        last_conversion(all_entries(read)->Ok_0) matches Some(c) ==> is_last_conversion(read, c),
        last_conversion(all_entries(read)->Ok_0) is None ==> no_conversion(read),
    decreases read.len(),
{
    if read.len() > 0 {
        let before = read.drop_last();
        let last = read.len() - 1;
        let here = read[last]->Ok_0;
        let some = all_entries(before)->Ok_0;
        lemma_last(before);
        lemma_last_of_both(some, here);
        lemma_last_in(here);
        if last_conversion(here) is Some {
            let c = last_conversion(here).unwrap();
            let j = choose|j: int|
                0 <= j < here.len() && #[trigger] here[j] == EntryModel::Convert(c) && forall|i: int|
                    j < i < here.len() ==> !(#[trigger] here[i] is Convert);
            assert(holds(read, last, j, EntryModel::Convert(c)));
            assert forall|k2: int, j2: int, d: Seq<char>| #[trigger]
                holds(read, k2, j2, EntryModel::Convert(d)) implies k2 < last || (k2 == last && j2
                <= j) by {
                if k2 == last {
                    assert(here[j2] is Convert);
                }
            }
        } else {
            assert forall|k2: int, j2: int, d: Seq<char>| #[trigger]
                holds(read, k2, j2, EntryModel::Convert(d)) implies holds(
                before,
                k2,
                j2,
                EntryModel::Convert(d),
            ) by {
                if k2 == last {
                    assert(here[j2] is Convert);
                }
            }
            if last_conversion(some) is Some {
                let c = last_conversion(some).unwrap();
                let (k, j) = choose|k: int, j: int|
                    #[trigger] holds(before, k, j, EntryModel::Convert(c)) && forall|
                        k2: int,
                        j2: int,
                        d: Seq<char>,
                    | #[trigger]
                        holds(before, k2, j2, EntryModel::Convert(d)) ==> k2 < k || (k2 == k && j2
                            <= j);
                assert(holds(read, k, j, EntryModel::Convert(c)));
            }
        }
    }
}

// Which parameter an argument stands for.

/// A reference, of any lifetime and mutability, to a path that ends with `Context`, in front of it
/// and behind it anything, is the context of the call; one to `Arguments` is its arguments. What
/// the attributes hold does not matter.
pub proof fn law_context_and_arguments(
    attrs: Seq<AttributeModel>,
    pat: PatModel,
    lifetime: Option<Seq<char>>,
    mutability: bool,
    head: Seq<PieceModel>,
    arguments: ArgumentsModel,
    span: Place,
    read: Seq<EntriesModel>,
)
    ensures
        ({
            let ty = |ident: Seq<char>|
                TypeModel::Reference {
                    lifetime,
                    mutability,
                    elem: Box::new(TypeModel::Path { head, ident, arguments }),
                };
            let of = |ident: Seq<char>|
                ParameterModel::of(PatTypeModel { attrs, pat, ty: ty(ident), span }, read);
            &&& of("Context"@) == Some(
                Ok::<ParameterModel, ErrorModel>(ParameterModel::Context(pat, ty("Context"@))),
            )
            &&& of("Arguments"@) == Some(
                Ok::<ParameterModel, ErrorModel>(ParameterModel::Arguments(pat, ty("Arguments"@))),
            )
        }),
{
    reveal_strlit("Context");
    reveal_strlit("Arguments");
    assert("Context"@.len() != "Arguments"@.len());
}

/// The type is a reference to a path that ends with `Context` or `Arguments`.
pub open spec fn is_of_call(ty: TypeModel) -> bool {
    match ty {
        TypeModel::Reference { elem, .. } => match *elem {
            TypeModel::Path { ident, .. } => ident == "Context"@ || ident == "Arguments"@,
            _ => false,
        },
        _ => false,
    }
}

/// The type that the last argument of an `Option` is.
pub open spec fn inner_option(ty: TypeModel) -> Option<TypeModel> {
    match ty {
        TypeModel::Path {
            ident,
            arguments: ArgumentsModel::AngleBracketed { args, .. },
            ..
        } => if ident == "Option"@ && args.len() > 0 && args.last() is Type {
            Some(args.last()->Type_0)
        } else {
            None
        },
        _ => None,
    }
}

/// An argument of any other type takes all the values that are left if and only if `varargs` stands
/// in its attributes, and is strict if and only if `strict` does. Its conversion is the one that
/// stands last in the attributes, whatever the type is, and `()` only where none stands in them.
/// Pattern and type are kept. A parameter that is converted from one value holds the type in its
/// type where that is an `Option`.
pub proof fn law_parameter(arg: PatTypeModel, read: Seq<EntriesModel>, parameter: ParameterModel)
    requires
        !is_of_call(arg.ty),
        ParameterModel::of(arg, read) == Some(Ok::<ParameterModel, ErrorModel>(parameter)),
    ensures
        parameter is VarArgs || parameter is Regular,
        parameter is VarArgs <==> somewhere(read, EntryModel::VarArgs),
        match parameter {
            ParameterModel::VarArgs { pat, ty, conversion, strict } => {
                &&& pat == arg.pat
                &&& ty == arg.ty
                &&& strict <==> somewhere(read, EntryModel::Strict)
                &&& is_last_conversion(read, conversion) || (no_conversion(read) && conversion
                    == "()"@)
            },
            ParameterModel::Regular { pat, ty, conversion, strict, option } => {
                &&& pat == arg.pat
                &&& ty == arg.ty
                &&& strict <==> somewhere(read, EntryModel::Strict)
                &&& is_last_conversion(read, conversion) || (no_conversion(read) && conversion
                    == "()"@)
                &&& option == inner_option(arg.ty)
            },
            _ => false,
        },
{
    lemma_entries(read, EntryModel::VarArgs);
    lemma_entries(read, EntryModel::Strict);
    lemma_last(read);
}

/// No two conversions stand last in the attributes, so that they settle what the conversion is.
pub proof fn law_last_conversion_unique(read: Seq<EntriesModel>, a: Seq<char>, b: Seq<char>)
    requires
        is_last_conversion(read, a),
        is_last_conversion(read, b),
    ensures
        a == b,
        !no_conversion(read),
{
    let (k, j) = choose|k: int, j: int|
        #[trigger] holds(read, k, j, EntryModel::Convert(a)) && forall|
            k2: int,
            j2: int,
            c: Seq<char>,
        | #[trigger]
            holds(read, k2, j2, EntryModel::Convert(c)) ==> k2 < k || (k2 == k && j2 <= j);
    let (m, n) = choose|k: int, j: int|
        #[trigger] holds(read, k, j, EntryModel::Convert(b)) && forall|
            k2: int,
            j2: int,
            c: Seq<char>,
        | #[trigger]
            holds(read, k2, j2, EntryModel::Convert(c)) ==> k2 < k || (k2 == k && j2 <= j);
    assert(holds(read, k, j, EntryModel::Convert(a)));
    assert(holds(read, m, n, EntryModel::Convert(b)));
}

/// What the attributes ask for does not depend on the type: the conversion and whether the parameter
/// is strict and takes all the values that are left are the same for an argument of another type.
pub proof fn law_type_does_not_matter(
    arg: PatTypeModel,
    ty: TypeModel,
    read: Seq<EntriesModel>,
    a: ParameterModel,
    b: ParameterModel,
)
    requires
        !is_of_call(arg.ty),
        !is_of_call(ty),
        ParameterModel::of(arg, read) == Some(Ok::<ParameterModel, ErrorModel>(a)),
        ParameterModel::of(PatTypeModel { ty, ..arg }, read) == Some(
            Ok::<ParameterModel, ErrorModel>(b),
        ),
    ensures
        match (a, b) {
            (
                ParameterModel::Regular { conversion: c, strict: s, .. },
                ParameterModel::Regular { conversion: d, strict: t, .. },
            ) => c == d && s == t,
            (
                ParameterModel::VarArgs { conversion: c, strict: s, .. },
                ParameterModel::VarArgs { conversion: d, strict: t, .. },
            ) => c == d && s == t,
            _ => false,
        },
{
}

/// An argument of any other type is refused with the first error in its attributes, if and only if
/// there is an error in them.
pub proof fn law_parameter_error(arg: PatTypeModel, read: Seq<EntriesModel>)
    requires
        !is_of_call(arg.ty),
    ensures
        ParameterModel::of(arg, read) matches Some(Err(e)) ==> exists|k: int|
            is_first_error(read, k, e),
        (exists|k: int| 0 <= k < read.len() && (#[trigger] read[k]) is Err) ==> (
        ParameterModel::of(arg, read) matches Some(Err(_))),
        (forall|k: int| 0 <= k < read.len() ==> (#[trigger] read[k]) is Ok) ==> (
        ParameterModel::of(arg, read) is None <==> (arg.ty matches TypeModel::Path {
            ident,
            arguments: ArgumentsModel::AngleBracketed { args, .. },
            ..
        } && ident == "Option"@ && args.len() == 0)),
{
    lemma_errors(read);
}

// Which receiver an argument stands for.

/// The pattern is the word `self` alone.
pub open spec fn is_word_self(pat: PatModel) -> bool {
    match pat {
        PatModel::Ident { by_ref, mutability, ident, subpat, .. } => !by_ref && !mutability
            && ident == "self"@ && subpat is None,
        PatModel::Other { .. } => false,
    }
}

/// A receiver that is written with `&` in a class is taken by reference, with the lifetime that is
/// written, if any, and mutable if and only if `mut` is written, neither of which depends on the
/// other; its type is the class. Without `&`, and outside of a class, it is refused.
pub proof fn law_written_receiver(
    lifetime: Option<Seq<char>>,
    mutability: bool,
    span: Place,
    class: TypeModel,
    read: Seq<EntriesModel>,
)
    ensures
        ({
            let of = |reference: Option<Option<Seq<char>>>, class: Option<TypeModel>|
                ThisModel::of(
                    ArgModel::Receiver(ReceiverModel { reference, mutability, span }),
                    read,
                    class,
                );
            let refused = |message: Seq<char>|
                Some(Err::<Option<ThisModel>, ErrorModel>(ErrorModel { span, message }));
            &&& !(class is Sum) ==> of(Some(lifetime), Some(class)) == Some(
                Ok::<Option<ThisModel>, ErrorModel>(
                    Some(
                        ThisModel {
                            pat: PatModel::Ident {
                                by_ref: false,
                                mutability: false,
                                ident: "self"@,
                                subpat: None,
                                span: Place::CallSite,
                            },
                            ty: class,
                            kind: KindModel::Ref(lifetime, mutability),
                        },
                    ),
                ),
            )
            &&& of(None, Some(class)) == refused("Invalid type for self"@)
            &&& of(Some(lifetime), None) == refused("Can only have self on Class Methods"@)
            &&& of(None, None) == refused("Can only have self on Class Methods"@)
        }),
{
}

/// The receiver that is written `self: Type` in a class, or that `this` marks: a reference gives a
/// receiver by reference, with its lifetime, its mutability and what it refers to. Any other type is
/// refused in a class, and is taken by value outside of one.
pub open spec fn receiver_from(arg: PatTypeModel, ty: TypeModel, in_class: bool) -> Result<
    Option<ThisModel>,
    ErrorModel,
> {
    if let TypeModel::Reference { lifetime, mutability, elem } = ty {
        Ok(Some(ThisModel { pat: arg.pat, ty: *elem, kind: KindModel::Ref(lifetime, mutability) }))
    } else if in_class {
        Err(ErrorModel { span: arg.span, message: "Invalid type for self"@ })
    } else {
        Ok(Some(ThisModel { pat: arg.pat, ty, kind: KindModel::Owned }))
    }
}

/// An argument `self: Type` in a class is the receiver, whatever its attributes hold, with the class
/// in the place of `Self`.
pub proof fn law_typed_self(arg: PatTypeModel, read: Seq<EntriesModel>, class: TypeModel)
    requires
        is_word_self(arg.pat),
    ensures
        ThisModel::of(ArgModel::Typed(arg), read, Some(class)) == Some(
            receiver_from(arg, arg.ty.with_self(class), true),
        ),
{
}

proof fn lemma_marks(read: Seq<EntriesModel>)
    ensures
        match marks_this(read) {
            Ok(true) => exists|k: int, j: int|
                #[trigger] holds(read, k, j, EntryModel::This) && forall|i: int|
                    0 <= i < k ==> (#[trigger] read[i]) is Ok,
            Ok(false) => (forall|i: int| 0 <= i < read.len() ==> (#[trigger] read[i]) is Ok)
                && !somewhere(read, EntryModel::This),
            Err(e) => exists|k: int|
                is_first_error(read, k, e) && !somewhere(read.take(k), EntryModel::This),
        },
    decreases read.len(),
{
    if read.len() > 0 {
        let before = read.drop_last();
        let last = read.len() - 1;
        lemma_marks(before);
        assert(forall|i: int| 0 <= i < last ==> #[trigger] before[i] == read[i]);
        match marks_this(before) {
            Ok(true) => {
                let (k, j) = choose|k: int, j: int|
                    #[trigger] holds(before, k, j, EntryModel::This) && forall|i: int|
                        0 <= i < k ==> (#[trigger] before[i]) is Ok;
                assert(holds(read, k, j, EntryModel::This));
                assert forall|i: int| 0 <= i < k implies (#[trigger] read[i]) is Ok by {
                    assert(before[i] is Ok);
                }
            },
            Err(e) => {
                let k = choose|k: int|
                    is_first_error(before, k, e) && !somewhere(before.take(k), EntryModel::This);
                assert(before.take(k) =~= read.take(k));
                assert(read[k] == before[k]);
                assert forall|i: int| 0 <= i < k implies (#[trigger] read[i]) is Ok by {
                    assert(before[i] is Ok);
                }
                assert(is_first_error(read, k, e));
            },
            Ok(false) => {
                assert forall|i: int| 0 <= i < last implies (#[trigger] read[i]) is Ok by {
                    assert(before[i] is Ok);
                }
                if read[last] is Err {
                    assert(is_first_error(read, last, read[last]->Err_0));
                    assert(read.take(last) =~= before);
                } else {
                    let here = read[last]->Ok_0;
                    if here.contains(EntryModel::This) {
                        let j = choose|j: int| 0 <= j < here.len() && here[j] == EntryModel::This;
                        assert(holds(read, last, j, EntryModel::This));
                    } else if somewhere(read, EntryModel::This) {
                        let (k, j) = choose|k: int, j: int| holds(read, k, j, EntryModel::This);
                        if k < last {
                            assert(holds(before, k, j, EntryModel::This));
                        } else {
                            assert(here[j] == EntryModel::This);
                        }
                    }
                }
            },
        }
    }
}

/// An argument that `this` marks is the receiver, where no attribute before the one that marks it
/// holds an error.
pub proof fn law_marked_receiver(
    arg: PatTypeModel,
    read: Seq<EntriesModel>,
    class: Option<TypeModel>,
    k: int,
    j: int,
)
    requires
        !(class is Some && is_word_self(arg.pat)),
        holds(read, k, j, EntryModel::This),
        forall|i: int| 0 <= i < k ==> (#[trigger] read[i]) is Ok,
    ensures
        ThisModel::of(ArgModel::Typed(arg), read, class) == Some(
            receiver_from(arg, arg.ty, class is Some),
        ),
{
    lemma_marks(read);
    if let Err(e) = marks_this(read) {
        let n = choose|n: int|
            is_first_error(read, n, e) && !somewhere(read.take(n), EntryModel::This);
        if k < n {
            assert(holds(read.take(n), k, j, EntryModel::This));
        }
    }
}

/// An argument that `this` does not mark, and that is not `self` in a class, is no receiver where its
/// attributes hold no error.
pub proof fn law_unmarked(
    arg: PatTypeModel,
    read: Seq<EntriesModel>,
    class: Option<TypeModel>,
)
    requires
        !(class is Some && is_word_self(arg.pat)),
        !somewhere(read, EntryModel::This),
        forall|i: int| 0 <= i < read.len() ==> (#[trigger] read[i]) is Ok,
    ensures
        ThisModel::of(ArgModel::Typed(arg), read, class) == Some(
            Ok::<Option<ThisModel>, ErrorModel>(None),
        ),
{
    lemma_marks(read);
}

/// An argument that is not `self` in a class is refused with the first error in its attributes,
/// where `this` does not stand before it.
pub proof fn law_receiver_error(
    arg: PatTypeModel,
    read: Seq<EntriesModel>,
    class: Option<TypeModel>,
    k: int,
    e: ErrorModel,
)
    requires
        !(class is Some && is_word_self(arg.pat)),
        is_first_error(read, k, e),
        !somewhere(read.take(k), EntryModel::This),
    ensures
        ThisModel::of(ArgModel::Typed(arg), read, class) == Some(
            Err::<Option<ThisModel>, ErrorModel>(e),
        ),
{
    lemma_marks(read);
    match marks_this(read) {
        Ok(true) => {
            let (m, j) = choose|m: int, j: int|
                #[trigger] holds(read, m, j, EntryModel::This) && forall|i: int|
                    0 <= i < m ==> (#[trigger] read[i]) is Ok;
            if m < k {
                assert(holds(read.take(k), m, j, EntryModel::This));
            } else {
                assert(read[k] is Ok);
            }
        },
        Ok(false) => {
            assert(read[k] is Ok);
        },
        Err(other) => {
            let n = choose|n: int|
                is_first_error(read, n, other) && !somewhere(read.take(n), EntryModel::This);
            if n < k {
                assert(read[n] is Ok);
            } else if k < n {
                assert(read[k] is Ok);
            }
        },
    }
}

// Names and counts.

/// The pattern of a parameter.
pub open spec fn pattern_of(parameter: ParameterModel) -> PatModel {
    match parameter {
        ParameterModel::Regular { pat, .. } => pat,
        ParameterModel::VarArgs { pat, .. } => pat,
        ParameterModel::Context(pat, _) => pat,
        ParameterModel::Arguments(pat, _) => pat,
    }
}

/// The name that a pattern binds.
pub open spec fn name_of(pat: PatModel) -> Seq<char> {
    match pat {
        PatModel::Ident { ident, .. } => ident,
        PatModel::Other { .. } => Seq::empty(),
    }
}

/// The names of parameters are those of exactly the parameters whose pattern binds one, in order,
/// whatever kind of parameter they are.
pub proof fn law_names(parameters: Seq<ParameterModel>)
    ensures
        idents_of(parameters) == parameters.filter(
            |p: ParameterModel| pattern_of(p) is Ident,
        ).map_values(|p: ParameterModel| name_of(pattern_of(p))),
    decreases parameters.len(),
{
    reveal(Seq::filter);
    let binds = |p: ParameterModel| pattern_of(p) is Ident;
    let name = |p: ParameterModel| name_of(pattern_of(p));
    if parameters.len() > 0 {
        law_names(parameters.drop_last());
    }
    assert(idents_of(parameters) =~= parameters.filter(binds).map_values(name));
}

/// A call has to give as many values as there are parameters that are converted from one value and
/// are not optional, and may give as many more as there are optional ones; the index of a parameter
/// is the number of those before it that are converted from one value.
pub proof fn law_value_counts(parameters: Seq<ParameterModel>)
    ensures
        required(parameters) == parameters.filter(
            |p: ParameterModel| p matches ParameterModel::Regular { option: None, .. },
        ).len(),
        optional(parameters) == parameters.filter(
            |p: ParameterModel| p matches ParameterModel::Regular { option: Some(_), .. },
        ).len(),
        width(parameters) == parameters.filter(|p: ParameterModel| p is Regular).len(),
    decreases parameters.len(),
{
    reveal(Seq::filter);
    if parameters.len() > 0 {
        law_value_counts(parameters.drop_last());
    }
}

/// Each parameter is read by its own statement, at the index that is the number of parameters before
/// it that are converted from one value, with its own literal.
pub proof fn law_statement_order(
    parameters: ParametersModel,
    literals: Seq<Seq<char>>,
    i: int,
)
    requires
        0 <= i < parameters.parameters.len(),
    ensures
        parameters.statement_texts(literals).len() == parameters.parameters.len(),
        parameters.statement_texts(literals)[i] == parameters.parameters[i].statement_text(
            parameters.parameters.take(i).filter(|p: ParameterModel| p is Regular).len(),
            literals[i],
        ),
{
    law_value_counts(parameters.parameters.take(i));
}

/// Where no argument is a receiver and each pattern binds a name, there is one name for each
/// argument, and it is the one that its pattern binds, whatever kind of parameter the argument is.
pub proof fn law_argument_names(
    args: Seq<ArgModel>,
    read: Seq<Seq<EntriesModel>>,
    class: Option<TypeModel>,
    parsed: ParametersModel,
)
    requires
        args.len() == read.len(),
        ParametersModel::of(args, read, class) == Some(
            Ok::<ParametersModel, ErrorModel>(parsed),
        ),
        forall|i: int|
            0 <= i < args.len() ==> ThisModel::of(#[trigger] args[i], read[i], class) == Some(
                Ok::<Option<ThisModel>, ErrorModel>(None),
            ),
        forall|i: int|
            0 <= i < args.len() ==> ((#[trigger] args[i]) matches ArgModel::Typed(arg)
                ==> arg.pat is Ident),
    ensures
        parsed.idents.len() == args.len(),
        forall|i: int|
            0 <= i < args.len() ==> ((#[trigger] args[i]) matches ArgModel::Typed(arg)
                && parsed.idents[i] == name_of(arg.pat)),
{
    law_order(args, read, class, parsed);
    assert forall|i: int| 0 <= i < args.len() implies pattern_of(#[trigger] parsed.parameters[i])
        == args[i]->Typed_0.pat && pattern_of(parsed.parameters[i]) is Ident by {
        assert(args[i] is Typed);
    }
    lemma_all_names(parsed.parameters);
    assert forall|i: int| 0 <= i < args.len() implies ((#[trigger] args[i]) matches ArgModel::Typed(
        arg,
    ) && parsed.idents[i] == name_of(arg.pat)) by {
        assert(pattern_of(parsed.parameters[i]) == args[i]->Typed_0.pat);
    }
}

proof fn lemma_all_names(parameters: Seq<ParameterModel>)
    requires
        forall|i: int|
            0 <= i < parameters.len() ==> pattern_of(#[trigger] parameters[i]) is Ident,
    ensures
        idents_of(parameters).len() == parameters.len(),
        forall|i: int|
            0 <= i < parameters.len() ==> idents_of(parameters)[i] == name_of(
                pattern_of(#[trigger] parameters[i]),
            ),
    decreases parameters.len(),
{
    if parameters.len() > 0 {
        let before = parameters.drop_last();
        let last = parameters.len() - 1;
        assert forall|i: int| 0 <= i < before.len() implies pattern_of(#[trigger] before[i])
            is Ident by {
            assert(before[i] == parameters[i]);
        }
        lemma_all_names(before);
        assert(pattern_of(parameters[last]) is Ident);
        assert forall|i: int| 0 <= i < parameters.len() implies idents_of(parameters)[i] == name_of(
            pattern_of(#[trigger] parameters[i]),
        ) by {
            if i < last {
                assert(before[i] == parameters[i]);
            }
        }
    }
}

/// No arguments give no parameters, no receiver, no names and no values.
pub proof fn law_no_arguments(class: Option<TypeModel>)
    ensures
        ParametersModel::of(Seq::empty(), Seq::empty(), class) == Some(
            Ok::<ParametersModel, ErrorModel>(
                ParametersModel {
                    parameters: Seq::empty(),
                    this: None,
                    idents: Seq::empty(),
                    nargs: (0, 0),
                },
            ),
        ),
{
}

/// One argument: it is the receiver, known by the name that its pattern binds, or it is a parameter
/// with the name that its pattern binds. Only a parameter that is converted from one value counts:
/// it is needed unless it holds the type in an `Option`. With what holds of arguments one after the
/// other, this settles what any arguments give.
pub proof fn law_one_argument(
    arg: PatTypeModel,
    read: Seq<EntriesModel>,
    class: Option<TypeModel>,
)
    ensures
        ({
            let of = ParametersModel::of(seq![ArgModel::Typed(arg)], seq![read], class);
            let name = match arg.pat {
                PatModel::Ident { ident, .. } => Some(ident),
                PatModel::Other { .. } => None,
            };
            match ThisModel::of(ArgModel::Typed(arg), read, class) {
                None => of is None,
                Some(Err(e)) => of == Some(Err::<ParametersModel, ErrorModel>(e)),
                Some(Ok(Some(this))) => of == Some(
                    Ok::<ParametersModel, ErrorModel>(
                        ParametersModel {
                            parameters: Seq::empty(),
                            this: match name {
                                Some(ident) => Some((this, ident)),
                                None => None,
                            },
                            idents: Seq::empty(),
                            nargs: (0, 0),
                        },
                    ),
                ),
                Some(Ok(None)) => match ParameterModel::of(arg, read) {
                    None => of is None,
                    Some(Err(e)) => of == Some(Err::<ParametersModel, ErrorModel>(e)),
                    Some(Ok(parameter)) => of == Some(
                        Ok::<ParametersModel, ErrorModel>(
                            ParametersModel {
                                parameters: seq![parameter],
                                this: None,
                                idents: match name {
                                    Some(ident) => seq![ident],
                                    None => Seq::empty(),
                                },
                                nargs: match parameter {
                                    ParameterModel::Regular { option: None, .. } => (1, 0),
                                    ParameterModel::Regular { option: Some(_), .. } => (0, 1),
                                    _ => (0, 0),
                                },
                            },
                        ),
                    ),
                },
            }
        }),
{
    let args = seq![ArgModel::Typed(arg)];
    let reads = seq![read];
    reveal_with_fuel(items_of, 2);
    reveal_with_fuel(parameters_of, 2);
    reveal_with_fuel(this_of, 2);
    reveal_with_fuel(idents_of, 2);
    reveal_with_fuel(required, 2);
    reveal_with_fuel(optional, 2);
    assert(args.drop_last() =~= Seq::empty());
    assert(reads.drop_last() =~= Seq::empty());
    if let Some(Ok(item)) = item_of(args[0], read, class) {
        let items = Seq::empty().push(item);
        assert(items.drop_last() =~= Seq::<ItemModel>::empty());
        if let ItemModel::Parameter(p) = item {
            let ps = Seq::empty().push(p);
            assert(ps.drop_last() =~= Seq::<ParameterModel>::empty());
            assert(parameters_of(items) =~= seq![p]);
            assert(p.pat() == arg.pat);
            assert(idents_of(seq![p]) =~= (match arg.pat {
                PatModel::Ident { ident, .. } => seq![ident],
                PatModel::Other { .. } => Seq::empty(),
            }));
        }
    }
}

/// A receiver that is written with `self` alone gives the same as any other receiver: it is known by
/// the name `self`, and is no parameter.
pub proof fn law_one_receiver(recv: ReceiverModel, class: TypeModel)
    requires
        recv.reference is Some,
        !(class is Sum),
    ensures
        ParametersModel::of(seq![ArgModel::Receiver(recv)], seq![Seq::empty()], Some(class)) matches Some(
            Ok(parsed),
        ) && parsed.parameters.len() == 0 && parsed.idents.len() == 0 && parsed.nargs == (0nat, 0nat)
            && parsed.this == Some(
            (
                ThisModel {
                    pat: PatModel::Ident {
                        by_ref: false,
                        mutability: false,
                        ident: "self"@,
                        subpat: None,
                        span: Place::CallSite,
                    },
                    ty: class,
                    kind: KindModel::Ref(recv.reference.unwrap(), recv.mutability),
                },
                "self"@,
            ),
        ),
{
    let args = seq![ArgModel::Receiver(recv)];
    let reads = seq![Seq::<EntriesModel>::empty()];
    reveal_with_fuel(items_of, 2);
    reveal_with_fuel(parameters_of, 2);
    reveal_with_fuel(this_of, 2);
    assert(args.drop_last() =~= Seq::empty());
    assert(reads.drop_last() =~= Seq::empty());
    let item = item_of(args[0], reads[0], Some(class))->Some_0->Ok_0;
    let items = Seq::empty().push(item);
    assert(items.drop_last() =~= Seq::<ItemModel>::empty());
}

// Answers of a parser.

/// A statement is what was written, or the error that the parser reports.
pub proof fn law_accepted(text: Seq<char>, e: ErrorModel)
    ensures
        accepted(text, None) == Ok::<Seq<char>, ErrorModel>(text),
        accepted(text, Some(e)) == Err::<Seq<char>, ErrorModel>(e),
{
}

/// The arguments are given, as they are, if and only if each of them fits.
pub proof fn law_accepted_args(args: Seq<ArgumentModel>, fits: Seq<bool>)
    ensures
        accepted_args(args, fits) == Some(args) || accepted_args(args, fits) is None,
        accepted_args(args, fits) is None <==> exists|i: int|
            0 <= i < args.len() && !(#[trigger] fits[i]),
{
}

// Patterns and messages.

/// Only a pattern that binds a name has one, and it is that name, however it is bound.
pub proof fn law_pattern_name(
    by_ref: bool,
    mutability: bool,
    ident: Seq<char>,
    subpat: Option<Seq<char>>,
    text: Seq<char>,
    span: Place,
)
    ensures
        (PatModel::Ident { by_ref, mutability, ident, subpat, span }).ident() == Some(ident),
        (PatModel::Other { text, span }).ident() is None,
        (PatModel::Ident { by_ref, mutability, ident, subpat, span }).span() == span,
        (PatModel::Other { text, span }).span() == span,
        (PatModel::Ident { by_ref, mutability, ident, subpat, span }).is_self() == is_word_self(
            PatModel::Ident { by_ref, mutability, ident, subpat, span },
        ),
        !(PatModel::Other { text, span }).is_self(),
{
}

/// The literal of a parameter that is converted from one value holds the message with the name that
/// the parameter's pattern binds, if it binds one, and the index.
pub proof fn law_reported(
    parameter: ParameterModel,
    index: nat,
    literal: Seq<char>,
)
    requires
        parameter is Regular,
        parameter.is_reported_by(index, literal),
    ensures
        is_literal_of(
            literal,
            match pattern_of(parameter) {
                PatModel::Ident { ident, .. } => "Argument "@ + ident + " at index "@
                    + decimal_digits(index) + " was not found."@,
                PatModel::Other { .. } => "Argument at index "@ + decimal_digits(index)
                    + " was not found."@,
            },
        ),
{
}

/// The literals of all the parameters hold the messages of each of them, at the index that is the
/// number of parameters before it that are converted from one value.
pub proof fn law_all_reported(parameters: ParametersModel, literals: Seq<Seq<char>>, i: int)
    requires
        0 <= i < parameters.parameters.len(),
        parameters.parameters[i] is Regular,
        parameters.are_reported_by(literals),
    ensures
        parameters.parameters[i].is_reported_by(
            parameters.parameters.take(i).filter(|p: ParameterModel| p is Regular).len(),
            literals[i],
        ),
{
    law_value_counts(parameters.parameters.take(i));
}

/// A literal has one value.
pub proof fn law_literal_value(text: Seq<char>, a: Seq<char>, b: Seq<char>)
    requires
        is_literal_of(text, a),
        is_literal_of(text, b),
    ensures
        a == b,
{
}

// Receivers on their own.

/// A pattern and a type give a receiver by reference where the type is a reference: with its
/// lifetime, its mutability, and what it refers to. Otherwise the receiver is taken by value outside
/// of a class, and refused in one, at the given place.
pub proof fn law_parse_this(
    pat: PatModel,
    lifetime: Option<Seq<char>>,
    mutability: bool,
    elem: TypeModel,
    ty: TypeModel,
    is_class: bool,
    span: Place,
)
    ensures
        receiver_of(
            pat,
            TypeModel::Reference { lifetime, mutability, elem: Box::new(elem) },
            is_class,
            span,
        ) == Ok::<ThisModel, ErrorModel>(
            ThisModel { pat, ty: elem, kind: KindModel::Ref(lifetime, mutability) },
        ),
        !(ty is Reference) ==> receiver_of(pat, ty, false, span) == Ok::<ThisModel, ErrorModel>(
            ThisModel { pat, ty, kind: KindModel::Owned },
        ),
        !(ty is Reference) ==> receiver_of(pat, ty, true, span) == Err::<ThisModel, ErrorModel>(
            ErrorModel { span, message: "Invalid type for self"@ },
        ),
{
}

/// There is an answer for every argument, but for a receiver that is written with `&` in a class
/// whose type has several bounds.
pub proof fn law_receiver_defined(
    arg: ArgModel,
    read: Seq<EntriesModel>,
    class: Option<TypeModel>,
)
    ensures
        ThisModel::of(arg, read, class) is Some <==> ThisModel::is_defined(arg, class),
        ThisModel::is_defined(arg, class) <==> match (arg, class) {
            (
                ArgModel::Receiver(ReceiverModel { reference: Some(_), .. }),
                Some(TypeModel::Sum(_)),
            ) => false,
            _ => true,
        },
{
}

} // verus!
