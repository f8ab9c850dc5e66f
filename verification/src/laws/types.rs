//! What removing lifetimes and replacing `Self` do to each part of a type, and what they leave.
use vstd::prelude::*;

use crate::types::{ArgumentsModel, GenericModel, PieceModel, TypeModel};
use crate::visitors::{
    generics_with_self, generics_without_lifetimes, pieces_with_self, pieces_without_lifetimes,
};

verus! {

// Removing lifetimes.

/// The lifetime of a reference does not matter, and everything else of it is kept: its mutability,
/// and what it refers to, without its lifetimes.
pub proof fn law_reference_without_lifetimes(
    lifetime: Option<Seq<char>>,
    mutability: bool,
    elem: TypeModel,
)
    ensures
        (TypeModel::Reference { lifetime, mutability, elem: Box::new(elem) }).without_lifetimes()
            == (TypeModel::Reference {
            lifetime: None,
            mutability,
            elem: Box::new(elem.without_lifetimes()),
        }),
{
}

/// A path keeps its name, and loses the lifetimes in front of the name and behind it.
pub proof fn law_path_without_lifetimes(
    head: Seq<PieceModel>,
    ident: Seq<char>,
    turbofish: bool,
    args: Seq<GenericModel>,
    pieces: Seq<PieceModel>,
)
    ensures
        ({
            let before = |arguments: ArgumentsModel| TypeModel::Path { head, ident, arguments };
            let after = |arguments: ArgumentsModel|
                TypeModel::Path { head: pieces_without_lifetimes(head), ident, arguments };
            &&& before(ArgumentsModel::Absent).without_lifetimes() == after(ArgumentsModel::Absent)
            &&& before(ArgumentsModel::AngleBracketed { turbofish, args }).without_lifetimes()
                == after(
                ArgumentsModel::AngleBracketed {
                    turbofish,
                    args: generics_without_lifetimes(args),
                },
            )
            &&& before(ArgumentsModel::Parenthesized(pieces)).without_lifetimes() == after(
                ArgumentsModel::Parenthesized(pieces_without_lifetimes(pieces)),
            )
        }),
{
    reveal_with_fuel(TypeModel::without_lifetimes, 2);
    reveal_with_fuel(ArgumentsModel::without_lifetimes, 2);
}

/// Types that are not taken apart lose the lifetimes in their pieces, and stay of their kind.
pub proof fn law_pieces_type_without_lifetimes(pieces: Seq<PieceModel>)
    ensures
        TypeModel::Sum(pieces).without_lifetimes() == TypeModel::Sum(
            pieces_without_lifetimes(pieces),
        ),
        TypeModel::Other(pieces).without_lifetimes() == TypeModel::Other(
            pieces_without_lifetimes(pieces),
        ),
{
}

/// Of pieces, lifetimes are left out, text is kept, and types lose their lifetimes; what becomes of
/// a piece does not depend on the others, and their order is kept.
pub proof fn law_pieces_without_lifetimes(
    a: Seq<PieceModel>,
    b: Seq<PieceModel>,
    text: Seq<char>,
    ty: TypeModel,
)
    ensures
        pieces_without_lifetimes(a + b) == pieces_without_lifetimes(a) + pieces_without_lifetimes(
            b,
        ),
        pieces_without_lifetimes(seq![PieceModel::Text(text)]) == seq![PieceModel::Text(text)],
        pieces_without_lifetimes(seq![PieceModel::Lifetime(text)]) == Seq::<PieceModel>::empty(),
        pieces_without_lifetimes(seq![PieceModel::Type(ty)]) == seq![
            PieceModel::Type(ty.without_lifetimes()),
        ],
    decreases b.len(),
{
    reveal_with_fuel(pieces_without_lifetimes, 2);
    let empty = Seq::<PieceModel>::empty();
    assert(seq![PieceModel::Text(text)].drop_last() =~= empty);
    assert(seq![PieceModel::Lifetime(text)].drop_last() =~= empty);
    assert(seq![PieceModel::Type(ty)].drop_last() =~= empty);
    assert(pieces_without_lifetimes(seq![PieceModel::Text(text)]) =~= seq![PieceModel::Text(text)]);
    assert(pieces_without_lifetimes(seq![PieceModel::Type(ty)]) =~= seq![
        PieceModel::Type(ty.without_lifetimes()),
    ]);
    if b.len() == 0 {
        assert(a + b =~= a);
        assert(pieces_without_lifetimes(a) + empty =~= pieces_without_lifetimes(a));
    } else {
        law_pieces_without_lifetimes(a, b.drop_last(), text, ty);
        assert((a + b).drop_last() =~= a + b.drop_last());
        assert(pieces_without_lifetimes(a + b) =~= pieces_without_lifetimes(a)
            + pieces_without_lifetimes(b));
    }
}

/// Of arguments between angle brackets, lifetimes are left out and the others lose their lifetimes;
/// what becomes of an argument does not depend on the others, and their order is kept.
pub proof fn law_generics_without_lifetimes(
    a: Seq<GenericModel>,
    b: Seq<GenericModel>,
    lifetime: Seq<char>,
    ty: TypeModel,
    pieces: Seq<PieceModel>,
)
    ensures
        generics_without_lifetimes(a + b) == generics_without_lifetimes(a)
            + generics_without_lifetimes(b),
        generics_without_lifetimes(seq![GenericModel::Lifetime(lifetime)]) == Seq::<
            GenericModel,
        >::empty(),
        generics_without_lifetimes(seq![GenericModel::Type(ty)]) == seq![
            GenericModel::Type(ty.without_lifetimes()),
        ],
        generics_without_lifetimes(seq![GenericModel::Other(pieces)]) == seq![
            GenericModel::Other(pieces_without_lifetimes(pieces)),
        ],
    decreases b.len(),
{
    reveal_with_fuel(generics_without_lifetimes, 2);
    let empty = Seq::<GenericModel>::empty();
    assert(seq![GenericModel::Lifetime(lifetime)].drop_last() =~= empty);
    assert(seq![GenericModel::Type(ty)].drop_last() =~= empty);
    assert(seq![GenericModel::Other(pieces)].drop_last() =~= empty);
    assert(generics_without_lifetimes(seq![GenericModel::Type(ty)]) =~= seq![
        GenericModel::Type(ty.without_lifetimes()),
    ]);
    assert(generics_without_lifetimes(seq![GenericModel::Other(pieces)]) =~= seq![
        GenericModel::Other(pieces_without_lifetimes(pieces)),
    ]);
    if b.len() == 0 {
        assert(a + b =~= a);
        assert(generics_without_lifetimes(a) + empty =~= generics_without_lifetimes(a));
    } else {
        law_generics_without_lifetimes(a, b.drop_last(), lifetime, ty, pieces);
        assert((a + b).drop_last() =~= a + b.drop_last());
        assert(generics_without_lifetimes(a + b) =~= generics_without_lifetimes(a)
            + generics_without_lifetimes(b));
    }
}

// Replacing `Self`.

/// The type `Self` is replaced by the class. A path with anything in front of its name, behind it, or
/// with another name is not, but what is in front and behind is looked through.
pub proof fn law_path_with_self(
    head: Seq<PieceModel>,
    ident: Seq<char>,
    turbofish: bool,
    args: Seq<GenericModel>,
    pieces: Seq<PieceModel>,
    class: TypeModel,
)
    ensures
        ({
            let before = |arguments: ArgumentsModel| TypeModel::Path { head, ident, arguments };
            let after = |arguments: ArgumentsModel|
                TypeModel::Path { head: pieces_with_self(head, class), ident, arguments };
            &&& (TypeModel::Path {
                head: Seq::empty(),
                ident: "Self"@,
                arguments: ArgumentsModel::Absent,
            }).with_self(class) == class
            &&& head.len() > 0 || ident != "Self"@ ==> before(ArgumentsModel::Absent).with_self(
                class,
            ) == after(ArgumentsModel::Absent)
            &&& before(ArgumentsModel::AngleBracketed { turbofish, args }).with_self(class)
                == after(
                ArgumentsModel::AngleBracketed { turbofish, args: generics_with_self(args, class) },
            )
            &&& before(ArgumentsModel::Parenthesized(pieces)).with_self(class) == after(
                ArgumentsModel::Parenthesized(pieces_with_self(pieces, class)),
            )
        }),
{
    reveal_with_fuel(TypeModel::with_self, 2);
    reveal_with_fuel(ArgumentsModel::with_self, 2);
}

/// A reference keeps its lifetime and its mutability, and types that are not taken apart stay of
/// their kind, when `Self` is replaced in them.
pub proof fn law_other_types_with_self(
    lifetime: Option<Seq<char>>,
    mutability: bool,
    elem: TypeModel,
    pieces: Seq<PieceModel>,
    class: TypeModel,
)
    ensures
        (TypeModel::Reference { lifetime, mutability, elem: Box::new(elem) }).with_self(class) == (
        TypeModel::Reference {
            lifetime,
            mutability,
            elem: Box::new(elem.with_self(class)),
        }),
        TypeModel::Sum(pieces).with_self(class) == TypeModel::Sum(pieces_with_self(pieces, class)),
        TypeModel::Other(pieces).with_self(class) == TypeModel::Other(
            pieces_with_self(pieces, class),
        ),
{
}

/// Each piece, and each argument between angle brackets, stays where it is when `Self` is replaced;
/// only the types among them and in them change.
pub proof fn law_parts_with_self(
    s: Seq<PieceModel>,
    args: Seq<GenericModel>,
    class: TypeModel,
)
    ensures
        pieces_with_self(s, class) == s.map_values(
            |p: PieceModel|
                match p {
                    PieceModel::Type(t) => PieceModel::Type(t.with_self(class)),
                    other => other,
                },
        ),
        generics_with_self(args, class) == args.map_values(
            |g: GenericModel|
                match g {
                    GenericModel::Type(t) => GenericModel::Type(t.with_self(class)),
                    GenericModel::Other(p) => GenericModel::Other(pieces_with_self(p, class)),
                    other => other,
                },
        ),
    decreases s.len() + args.len(),
{
    let f = |p: PieceModel|
        match p {
            PieceModel::Type(t) => PieceModel::Type(t.with_self(class)),
            other => other,
        };
    let g = |g: GenericModel|
        match g {
            GenericModel::Type(t) => GenericModel::Type(t.with_self(class)),
            GenericModel::Other(p) => GenericModel::Other(pieces_with_self(p, class)),
            other => other,
        };
    if s.len() > 0 {
        law_parts_with_self(s.drop_last(), args, class);
    } else if args.len() > 0 {
        law_parts_with_self(s, args.drop_last(), class);
    }
    assert(pieces_with_self(s, class) =~= s.map_values(f));
    assert(generics_with_self(args, class) =~= args.map_values(g));
}

} // verus!
