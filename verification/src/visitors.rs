//! Walks over a type that change it: removing its lifetimes, and putting a class type in the
//! place of `Self`.
use vstd::prelude::*;

use crate::types::{
    ArgumentsModel, GenericArgument, GenericModel, PathArguments, Piece, PieceModel, Type,
    TypeModel, TypePath, TypeReference,
};
use crate::text::text_is;
use crate::types::{clone_optional, generics_model, pieces_model};
use crate::types::{
    lemma_generics_push, lemma_generics_step, lemma_pieces_len, lemma_pieces_push,
    lemma_pieces_step,
};

verus! {

// Removing lifetimes.

impl TypeModel {
    /// The type with every lifetime in it removed, and nothing else changed.
    pub open spec fn without_lifetimes(self) -> TypeModel
        decreases self,
    {
        match self {
            TypeModel::Reference { lifetime, mutability, elem } => TypeModel::Reference {
                lifetime: None,
                mutability,
                elem: Box::new(elem.without_lifetimes()),
            },
            TypeModel::Path { head, ident, arguments } => TypeModel::Path {
                head: pieces_without_lifetimes(head),
                ident,
                arguments: arguments.without_lifetimes(),
            },
            TypeModel::Sum(p) => TypeModel::Sum(pieces_without_lifetimes(p)),
            TypeModel::Other(p) => TypeModel::Other(pieces_without_lifetimes(p)),
        }
    }

    /// A lifetime stands somewhere in the type.
    pub open spec fn has_lifetime(self) -> bool
        decreases self,
    {
        match self {
            TypeModel::Reference { lifetime, mutability, elem } => lifetime is Some
                || elem.has_lifetime(),
            TypeModel::Path { head, ident, arguments } => pieces_have_lifetime(head)
                || arguments.has_lifetime(),
            TypeModel::Sum(p) => pieces_have_lifetime(p),
            TypeModel::Other(p) => pieces_have_lifetime(p),
        }
    }
}

impl ArgumentsModel {
    pub open spec fn without_lifetimes(self) -> ArgumentsModel
        decreases self,
    {
        match self {
            ArgumentsModel::Absent => ArgumentsModel::Absent,
            ArgumentsModel::AngleBracketed { turbofish, args } => ArgumentsModel::AngleBracketed {
                turbofish,
                args: generics_without_lifetimes(args),
            },
            ArgumentsModel::Parenthesized(p) => ArgumentsModel::Parenthesized(
                pieces_without_lifetimes(p),
            ),
        }
    }

    pub open spec fn has_lifetime(self) -> bool
        decreases self,
    {
        match self {
            ArgumentsModel::Absent => false,
            ArgumentsModel::AngleBracketed { turbofish, args } => generics_have_lifetime(args),
            ArgumentsModel::Parenthesized(p) => pieces_have_lifetime(p),
        }
    }
}

/// Pieces without the lifetimes among them and in them.
pub open spec fn pieces_without_lifetimes(s: Seq<PieceModel>) -> Seq<PieceModel>
    decreases s,
{
    if s.len() == 0 {
        Seq::empty()
    } else {
        let rest = pieces_without_lifetimes(s.drop_last());
        match s.last() {
            PieceModel::Text(t) => rest.push(PieceModel::Text(t)),
            PieceModel::Lifetime(_) => rest,
            PieceModel::Type(t) => rest.push(PieceModel::Type(t.without_lifetimes())),
        }
    }
}

/// Arguments without the lifetimes among them and in them.
pub open spec fn generics_without_lifetimes(s: Seq<GenericModel>) -> Seq<GenericModel>
    decreases s,
{
    if s.len() == 0 {
        Seq::empty()
    } else {
        let rest = generics_without_lifetimes(s.drop_last());
        match s.last() {
            GenericModel::Lifetime(_) => rest,
            GenericModel::Type(t) => rest.push(GenericModel::Type(t.without_lifetimes())),
            GenericModel::Other(p) => rest.push(GenericModel::Other(pieces_without_lifetimes(p))),
        }
    }
}

/// A lifetime stands among or in the pieces.
pub open spec fn pieces_have_lifetime(s: Seq<PieceModel>) -> bool
    decreases s,
{
    if s.len() == 0 {
        false
    } else {
        pieces_have_lifetime(s.drop_last()) || match s.last() {
            PieceModel::Text(_) => false,
            PieceModel::Lifetime(_) => true,
            PieceModel::Type(t) => t.has_lifetime(),
        }
    }
}

/// A lifetime stands among or in the arguments.
pub open spec fn generics_have_lifetime(s: Seq<GenericModel>) -> bool
    decreases s,
{
    if s.len() == 0 {
        false
    } else {
        generics_have_lifetime(s.drop_last()) || match s.last() {
            GenericModel::Lifetime(_) => true,
            GenericModel::Type(t) => t.has_lifetime(),
            GenericModel::Other(p) => pieces_have_lifetime(p),
        }
    }
}

impl Type {
    /// A copy of the type with every lifetime in it removed.
    pub fn without_lifetimes(&self) -> (r: Type)
        ensures
            r@ == self@.without_lifetimes(),
        decreases self,
    {
        match self {
            Type::Reference(r) => Type::Reference(
                TypeReference {
                    lifetime: None,
                    mutability: r.mutability,
                    elem: Box::new((*r.elem).without_lifetimes()),
                },
            ),
            Type::Path(p) => Type::Path(
                TypePath {
                    head: remove_from_pieces(&p.head),
                    ident: p.ident.clone(),
                    arguments: p.arguments.without_lifetimes(),
                },
            ),
            Type::Sum(p) => Type::Sum(remove_from_pieces(p)),
            Type::Other(p) => Type::Other(remove_from_pieces(p)),
        }
    }
}

impl PathArguments {
    fn without_lifetimes(&self) -> (r: PathArguments)
        ensures
            r.model() == self.model().without_lifetimes(),
        decreases self,
    {
        match self {
            PathArguments::Absent => PathArguments::Absent,
            PathArguments::AngleBracketed { turbofish, args } => PathArguments::AngleBracketed {
                turbofish: *turbofish,
                args: remove_from_generics(args),
            },
            PathArguments::Parenthesized(p) => PathArguments::Parenthesized(remove_from_pieces(p)),
        }
    }
}

fn remove_from_pieces(pieces: &Vec<Piece>) -> (r: Vec<Piece>)
    ensures
        pieces_model(r@) == pieces_without_lifetimes(pieces_model(pieces@)),
    decreases pieces@,
{
    let mut kept: Vec<Piece> = Vec::new();
    let mut i: usize = 0;
    assert(pieces@.take(0) =~= Seq::empty());
    while i < pieces.len()
        invariant
            i <= pieces@.len(),
            pieces_model(kept@) == pieces_without_lifetimes(pieces_model(pieces@.take(i as int))),
        decreases pieces@.len() - i,
    {
        proof {
            lemma_pieces_step(pieces@, i + 1);
        }
        match &pieces[i] {
            Piece::Text(s) => {
                let piece = Piece::Text(s.clone());
                proof {
                    lemma_pieces_push(kept@, piece);
                }
                kept.push(piece);
            },
            Piece::Lifetime(_) => {},
            Piece::Type(t) => {
                let piece = Piece::Type(t.without_lifetimes());
                proof {
                    lemma_pieces_push(kept@, piece);
                }
                kept.push(piece);
            },
        }
        i += 1;
    }
    assert(pieces@.take(i as int) =~= pieces@);
    kept
}

fn remove_from_generics(args: &Vec<GenericArgument>) -> (r: Vec<GenericArgument>)
    ensures
        generics_model(r@) == generics_without_lifetimes(generics_model(args@)),
    decreases args@,
{
    let mut kept: Vec<GenericArgument> = Vec::new();
    let mut i: usize = 0;
    assert(args@.take(0) =~= Seq::empty());
    while i < args.len()
        invariant
            i <= args@.len(),
            generics_model(kept@) == generics_without_lifetimes(
                generics_model(args@.take(i as int)),
            ),
        decreases args@.len() - i,
    {
        proof {
            lemma_generics_step(args@, i + 1);
        }
        match &args[i] {
            GenericArgument::Lifetime(_) => {},
            GenericArgument::Type(t) => {
                let arg = GenericArgument::Type(t.without_lifetimes());
                proof {
                    lemma_generics_push(kept@, arg);
                }
                kept.push(arg);
            },
            GenericArgument::Other(p) => {
                let arg = GenericArgument::Other(remove_from_pieces(p));
                proof {
                    lemma_generics_push(kept@, arg);
                }
                kept.push(arg);
            },
        }
        i += 1;
    }
    assert(args@.take(i as int) =~= args@);
    kept
}

// Replacing `Self`.

impl TypeModel {
    /// The type is `Self`, and nothing more.
    pub open spec fn is_self(self) -> bool {
        self matches TypeModel::Path { head, ident, arguments } && head.len() == 0 && ident
            == "Self"@ && arguments is Absent
    }

    /// The type with `class` in the place of each `Self` that is a type of its own.
    pub open spec fn with_self(self, class: TypeModel) -> TypeModel
        decreases self,
    {
        if self.is_self() {
            class
        } else {
            match self {
                TypeModel::Reference { lifetime, mutability, elem } => TypeModel::Reference {
                    lifetime,
                    mutability,
                    elem: Box::new(elem.with_self(class)),
                },
                TypeModel::Path { head, ident, arguments } => TypeModel::Path {
                    head: pieces_with_self(head, class),
                    ident,
                    arguments: arguments.with_self(class),
                },
                TypeModel::Sum(p) => TypeModel::Sum(pieces_with_self(p, class)),
                TypeModel::Other(p) => TypeModel::Other(pieces_with_self(p, class)),
            }
        }
    }

    /// `Self` stands somewhere in the type as a type of its own.
    pub open spec fn mentions_self(self) -> bool
        decreases self,
    {
        self.is_self() || match self {
            TypeModel::Reference { lifetime, mutability, elem } => elem.mentions_self(),
            TypeModel::Path { head, ident, arguments } => pieces_mention_self(head)
                || arguments.mentions_self(),
            TypeModel::Sum(p) => pieces_mention_self(p),
            TypeModel::Other(p) => pieces_mention_self(p),
        }
    }
}

impl ArgumentsModel {
    pub open spec fn with_self(self, class: TypeModel) -> ArgumentsModel
        decreases self,
    {
        match self {
            ArgumentsModel::Absent => ArgumentsModel::Absent,
            ArgumentsModel::AngleBracketed { turbofish, args } => ArgumentsModel::AngleBracketed {
                turbofish,
                args: generics_with_self(args, class),
            },
            ArgumentsModel::Parenthesized(p) => ArgumentsModel::Parenthesized(
                pieces_with_self(p, class),
            ),
        }
    }

    pub open spec fn mentions_self(self) -> bool
        decreases self,
    {
        match self {
            ArgumentsModel::Absent => false,
            ArgumentsModel::AngleBracketed { turbofish, args } => generics_mention_self(args),
            ArgumentsModel::Parenthesized(p) => pieces_mention_self(p),
        }
    }
}

/// Pieces with `class` in the place of each `Self` in them.
pub open spec fn pieces_with_self(s: Seq<PieceModel>, class: TypeModel) -> Seq<PieceModel>
    decreases s,
{
    if s.len() == 0 {
        Seq::empty()
    } else {
        pieces_with_self(s.drop_last(), class).push(
            match s.last() {
                PieceModel::Text(t) => PieceModel::Text(t),
                PieceModel::Lifetime(l) => PieceModel::Lifetime(l),
                PieceModel::Type(t) => PieceModel::Type(t.with_self(class)),
            },
        )
    }
}

/// Arguments with `class` in the place of each `Self` in them.
pub open spec fn generics_with_self(s: Seq<GenericModel>, class: TypeModel) -> Seq<GenericModel>
    decreases s,
{
    if s.len() == 0 {
        Seq::empty()
    } else {
        generics_with_self(s.drop_last(), class).push(
            match s.last() {
                GenericModel::Lifetime(l) => GenericModel::Lifetime(l),
                GenericModel::Type(t) => GenericModel::Type(t.with_self(class)),
                GenericModel::Other(p) => GenericModel::Other(pieces_with_self(p, class)),
            },
        )
    }
}

/// `Self` stands in the pieces as a type of its own.
pub open spec fn pieces_mention_self(s: Seq<PieceModel>) -> bool
    decreases s,
{
    if s.len() == 0 {
        false
    } else {
        pieces_mention_self(s.drop_last()) || match s.last() {
            PieceModel::Text(_) => false,
            PieceModel::Lifetime(_) => false,
            PieceModel::Type(t) => t.mentions_self(),
        }
    }
}

/// `Self` stands in the arguments as a type of its own.
pub open spec fn generics_mention_self(s: Seq<GenericModel>) -> bool
    decreases s,
{
    if s.len() == 0 {
        false
    } else {
        generics_mention_self(s.drop_last()) || match s.last() {
            GenericModel::Lifetime(_) => false,
            GenericModel::Type(t) => t.mentions_self(),
            GenericModel::Other(p) => pieces_mention_self(p),
        }
    }
}

impl Type {
    /// Tells whether the type is `Self`, and nothing more.
    pub fn is_self(&self) -> (r: bool)
        ensures
            r == self@.is_self(),
    {
        match self {
            Type::Path(p) => {
                proof {
                    lemma_pieces_len(p.head@);
                    assert(p.arguments.model() is Absent <==> p.arguments is Absent);
                }
                p.head.len() == 0 && text_is(&p.ident, "Self") && match p.arguments {
                    PathArguments::Absent => true,
                    _ => false,
                }
            },
            _ => false,
        }
    }

    /// A copy of the type with `class` in the place of each `Self`.
    pub fn with_self(&self, class: &Type) -> (r: Type)
        ensures
            r@ == self@.with_self(class@),
        decreases self,
    {
        if self.is_self() {
            return class.clone();
        }
        match self {
            Type::Reference(r) => Type::Reference(
                TypeReference {
                    lifetime: clone_optional(&r.lifetime),
                    mutability: r.mutability,
                    elem: Box::new((*r.elem).with_self(class)),
                },
            ),
            Type::Path(p) => Type::Path(
                TypePath {
                    head: replace_in_pieces(&p.head, class),
                    ident: p.ident.clone(),
                    arguments: p.arguments.with_self(class),
                },
            ),
            Type::Sum(p) => Type::Sum(replace_in_pieces(p, class)),
            Type::Other(p) => Type::Other(replace_in_pieces(p, class)),
        }
    }
}

impl PathArguments {
    fn with_self(&self, class: &Type) -> (r: PathArguments)
        ensures
            r.model() == self.model().with_self(class@),
        decreases self,
    {
        match self {
            PathArguments::Absent => PathArguments::Absent,
            PathArguments::AngleBracketed { turbofish, args } => PathArguments::AngleBracketed {
                turbofish: *turbofish,
                args: replace_in_generics(args, class),
            },
            PathArguments::Parenthesized(p) => PathArguments::Parenthesized(
                replace_in_pieces(p, class),
            ),
        }
    }
}

fn replace_in_pieces(pieces: &Vec<Piece>, class: &Type) -> (r: Vec<Piece>)
    ensures
        pieces_model(r@) == pieces_with_self(pieces_model(pieces@), class@),
    decreases pieces@,
{
    let mut replaced: Vec<Piece> = Vec::new();
    let mut i: usize = 0;
    assert(pieces@.take(0) =~= Seq::empty());
    while i < pieces.len()
        invariant
            i <= pieces@.len(),
            pieces_model(replaced@) == pieces_with_self(
                pieces_model(pieces@.take(i as int)),
                class@,
            ),
        decreases pieces@.len() - i,
    {
        let piece = match &pieces[i] {
            Piece::Text(s) => Piece::Text(s.clone()),
            Piece::Lifetime(l) => Piece::Lifetime(l.clone()),
            Piece::Type(t) => Piece::Type(t.with_self(class)),
        };
        proof {
            lemma_pieces_step(pieces@, i + 1);
            lemma_pieces_push(replaced@, piece);
        }
        replaced.push(piece);
        i += 1;
    }
    assert(pieces@.take(i as int) =~= pieces@);
    replaced
}

fn replace_in_generics(args: &Vec<GenericArgument>, class: &Type) -> (r: Vec<GenericArgument>)
    ensures
        generics_model(r@) == generics_with_self(generics_model(args@), class@),
    decreases args@,
{
    let mut replaced: Vec<GenericArgument> = Vec::new();
    let mut i: usize = 0;
    assert(args@.take(0) =~= Seq::empty());
    while i < args.len()
        invariant
            i <= args@.len(),
            generics_model(replaced@) == generics_with_self(
                generics_model(args@.take(i as int)),
                class@,
            ),
        decreases args@.len() - i,
    {
        let arg = match &args[i] {
            GenericArgument::Lifetime(l) => GenericArgument::Lifetime(l.clone()),
            GenericArgument::Type(t) => GenericArgument::Type(t.with_self(class)),
            GenericArgument::Other(p) => GenericArgument::Other(replace_in_pieces(p, class)),
        };
        proof {
            lemma_generics_step(args@, i + 1);
            lemma_generics_push(replaced@, arg);
        }
        replaced.push(arg);
        i += 1;
    }
    assert(args@.take(i as int) =~= args@);
    replaced
}

} // verus!
