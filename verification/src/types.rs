//! Types as they are written in a signature, and what is done to them before they are written
//! again: their lifetimes are removed, and `Self` is replaced.
use vstd::prelude::*;

use crate::views::view_option;

verus! {

/// A type.
#[derive(Debug)]
pub enum Type {
    /// `&'a mut T`
    Reference(TypeReference),
    /// `path::to::Name<Arguments>`
    Path(TypePath),
    /// A `dyn` or `impl` type with several bounds, which cannot follow `&` without parentheses.
    Sum(Vec<Piece>),
    /// Any other type.
    Other(Vec<Piece>),
}

/// A reference type. The lifetime is written with its apostrophe.
#[derive(Debug)]
pub struct TypeReference {
    pub lifetime: Option<String>,
    pub mutability: bool,
    pub elem: Box<Type>,
}

/// A type that is a path: what stands before the last segment, up to and with its `::`, and the
/// last segment.
#[derive(Debug)]
pub struct TypePath {
    pub head: Vec<Piece>,
    pub ident: String,
    pub arguments: PathArguments,
}

/// The arguments of a path segment.
#[derive(Debug)]
pub enum PathArguments {
    Absent,
    /// `<A, B>`, or `::<A, B>`
    AngleBracketed { turbofish: bool, args: Vec<GenericArgument> },
    /// `(A, B) -> C`
    Parenthesized(Vec<Piece>),
}

/// An argument between angle brackets.
#[derive(Debug)]
pub enum GenericArgument {
    Lifetime(String),
    Type(Type),
    /// A constant, or the binding or the bound of an associated item.
    Other(Vec<Piece>),
}

/// A part of a construct that is not taken apart further: text, a type in it, or a lifetime in it
/// with the punctuation that would be left over without the lifetime.
#[derive(Debug)]
pub enum Piece {
    Text(String),
    Lifetime(String),
    Type(Type),
}

/// What a [`Type`] is.
pub enum TypeModel {
    Reference { lifetime: Option<Seq<char>>, mutability: bool, elem: Box<TypeModel> },
    Path { head: Seq<PieceModel>, ident: Seq<char>, arguments: ArgumentsModel },
    Sum(Seq<PieceModel>),
    Other(Seq<PieceModel>),
}

/// What [`PathArguments`] are.
pub enum ArgumentsModel {
    Absent,
    AngleBracketed { turbofish: bool, args: Seq<GenericModel> },
    Parenthesized(Seq<PieceModel>),
}

/// What a [`GenericArgument`] is.
pub enum GenericModel {
    Lifetime(Seq<char>),
    Type(TypeModel),
    Other(Seq<PieceModel>),
}

/// What a [`Piece`] is.
pub enum PieceModel {
    Text(Seq<char>),
    Lifetime(Seq<char>),
    Type(TypeModel),
}

impl Type {
    pub open spec fn model(self) -> TypeModel
        decreases self,
    {
        match self {
            Type::Reference(r) => TypeModel::Reference {
                lifetime: view_option(r.lifetime),
                mutability: r.mutability,
                elem: Box::new((*r.elem).model()),
            },
            Type::Path(p) => TypeModel::Path {
                head: pieces_model(p.head@),
                ident: p.ident@,
                arguments: p.arguments.model(),
            },
            Type::Sum(p) => TypeModel::Sum(pieces_model(p@)),
            Type::Other(p) => TypeModel::Other(pieces_model(p@)),
        }
    }
}

impl PathArguments {
    pub open spec fn model(self) -> ArgumentsModel
        decreases self,
    {
        match self {
            PathArguments::Absent => ArgumentsModel::Absent,
            PathArguments::AngleBracketed { turbofish, args } => ArgumentsModel::AngleBracketed {
                turbofish,
                args: generics_model(args@),
            },
            PathArguments::Parenthesized(p) => ArgumentsModel::Parenthesized(pieces_model(p@)),
        }
    }
}

impl GenericArgument {
    pub open spec fn model(self) -> GenericModel
        decreases self,
    {
        match self {
            GenericArgument::Lifetime(l) => GenericModel::Lifetime(l@),
            GenericArgument::Type(t) => GenericModel::Type(t.model()),
            GenericArgument::Other(p) => GenericModel::Other(pieces_model(p@)),
        }
    }
}

impl Piece {
    pub open spec fn model(self) -> PieceModel
        decreases self,
    {
        match self {
            Piece::Text(s) => PieceModel::Text(s@),
            Piece::Lifetime(l) => PieceModel::Lifetime(l@),
            Piece::Type(t) => PieceModel::Type(t.model()),
        }
    }
}

/// What each of some pieces is.
pub open spec fn pieces_model(s: Seq<Piece>) -> Seq<PieceModel>
    decreases s,
{
    if s.len() == 0 {
        Seq::empty()
    } else {
        pieces_model(s.drop_last()).push(s.last().model())
    }
}

/// What each of some arguments is.
pub open spec fn generics_model(s: Seq<GenericArgument>) -> Seq<GenericModel>
    decreases s,
{
    if s.len() == 0 {
        Seq::empty()
    } else {
        generics_model(s.drop_last()).push(s.last().model())
    }
}

pub(crate) proof fn lemma_pieces_step(s: Seq<Piece>, n: int)
    requires
        0 < n <= s.len(),
    ensures
        pieces_model(s.take(n)) == pieces_model(s.take(n - 1)).push(s[n - 1].model()),
        pieces_model(s.take(n)).drop_last() == pieces_model(s.take(n - 1)),
{
    assert(s.take(n).drop_last() =~= s.take(n - 1));
    assert(pieces_model(s.take(n)).drop_last() =~= pieces_model(s.take(n - 1)));
}

pub(crate) proof fn lemma_generics_step(s: Seq<GenericArgument>, n: int)
    requires
        0 < n <= s.len(),
    ensures
        generics_model(s.take(n)) == generics_model(s.take(n - 1)).push(s[n - 1].model()),
        generics_model(s.take(n)).drop_last() == generics_model(s.take(n - 1)),
{
    assert(s.take(n).drop_last() =~= s.take(n - 1));
    assert(generics_model(s.take(n)).drop_last() =~= generics_model(s.take(n - 1)));
}

pub(crate) proof fn lemma_pieces_len(s: Seq<Piece>)
    ensures
        pieces_model(s).len() == s.len(),
    decreases s.len(),
{
    if s.len() > 0 {
        lemma_pieces_len(s.drop_last());
    }
}

/// Each argument's model stands at the argument's place.
pub(crate) proof fn lemma_generics_index(s: Seq<GenericArgument>)
    ensures
        generics_model(s).len() == s.len(),
        forall|i: int| 0 <= i < s.len() ==> #[trigger] generics_model(s)[i] == s[i].model(),
    decreases s.len(),
{
    if s.len() > 0 {
        lemma_generics_index(s.drop_last());
        assert forall|i: int| 0 <= i < s.len() implies #[trigger] generics_model(s)[i]
            == s[i].model() by {
            if i < s.len() - 1 {
                assert(s.drop_last()[i] == s[i]);
            }
        }
    }
}

pub(crate) proof fn lemma_pieces_push(s: Seq<Piece>, x: Piece)
    ensures
        pieces_model(s.push(x)) == pieces_model(s).push(x.model()),
{
    assert(s.push(x).drop_last() =~= s);
}

pub(crate) proof fn lemma_generics_push(s: Seq<GenericArgument>, x: GenericArgument)
    ensures
        generics_model(s.push(x)) == generics_model(s).push(x.model()),
{
    assert(s.push(x).drop_last() =~= s);
}

impl View for Type {
    type V = TypeModel;

    open spec fn view(&self) -> TypeModel {
        self.model()
    }
}

// Copies.

impl Clone for Type {
    fn clone(&self) -> (r: Self)
        ensures
            r@ == self@,
        decreases self,
    {
        match self {
            Type::Reference(r) => Type::Reference(
                TypeReference {
                    lifetime: clone_optional(&r.lifetime),
                    mutability: r.mutability,
                    elem: Box::new((*r.elem).clone()),
                },
            ),
            Type::Path(p) => Type::Path(
                TypePath {
                    head: clone_pieces(&p.head),
                    ident: p.ident.clone(),
                    arguments: p.arguments.clone(),
                },
            ),
            Type::Sum(p) => Type::Sum(clone_pieces(p)),
            Type::Other(p) => Type::Other(clone_pieces(p)),
        }
    }
}

impl Clone for PathArguments {
    fn clone(&self) -> (r: Self)
        ensures
            r.model() == self.model(),
        decreases self,
    {
        match self {
            PathArguments::Absent => PathArguments::Absent,
            PathArguments::AngleBracketed { turbofish, args } => PathArguments::AngleBracketed {
                turbofish: *turbofish,
                args: clone_generics(args),
            },
            PathArguments::Parenthesized(p) => PathArguments::Parenthesized(clone_pieces(p)),
        }
    }
}

impl Clone for GenericArgument {
    fn clone(&self) -> (r: Self)
        ensures
            r.model() == self.model(),
        decreases self,
    {
        match self {
            GenericArgument::Lifetime(l) => GenericArgument::Lifetime(l.clone()),
            GenericArgument::Type(t) => GenericArgument::Type(t.clone()),
            GenericArgument::Other(p) => GenericArgument::Other(clone_pieces(p)),
        }
    }
}

impl Clone for Piece {
    fn clone(&self) -> (r: Self)
        ensures
            r.model() == self.model(),
        decreases self,
    {
        match self {
            Piece::Text(s) => Piece::Text(s.clone()),
            Piece::Lifetime(l) => Piece::Lifetime(l.clone()),
            Piece::Type(t) => Piece::Type(t.clone()),
        }
    }
}

/// Copies an optional string.
pub fn clone_optional(s: &Option<String>) -> (r: Option<String>)
    ensures
        view_option(r) == view_option(*s),
{
    match s {
        Some(s) => Some(s.clone()),
        None => None,
    }
}

fn clone_pieces(pieces: &Vec<Piece>) -> (r: Vec<Piece>)
    ensures
        pieces_model(r@) == pieces_model(pieces@),
    decreases pieces@,
{
    let mut copies: Vec<Piece> = Vec::new();
    let mut i: usize = 0;
    assert(pieces@.take(0) =~= Seq::empty());
    while i < pieces.len()
        invariant
            i <= pieces@.len(),
            pieces_model(copies@) == pieces_model(pieces@.take(i as int)),
        decreases pieces@.len() - i,
    {
        let copy = pieces[i].clone();
        proof {
            lemma_pieces_push(copies@, copy);
            lemma_pieces_step(pieces@, i + 1);
        }
        copies.push(copy);
        i += 1;
    }
    assert(pieces@.take(i as int) =~= pieces@);
    copies
}

fn clone_generics(args: &Vec<GenericArgument>) -> (r: Vec<GenericArgument>)
    ensures
        generics_model(r@) == generics_model(args@),
    decreases args@,
{
    let mut copies: Vec<GenericArgument> = Vec::new();
    let mut i: usize = 0;
    assert(args@.take(0) =~= Seq::empty());
    while i < args.len()
        invariant
            i <= args@.len(),
            generics_model(copies@) == generics_model(args@.take(i as int)),
        decreases args@.len() - i,
    {
        let copy = args[i].clone();
        proof {
            lemma_generics_push(copies@, copy);
            lemma_generics_step(args@, i + 1);
        }
        copies.push(copy);
        i += 1;
    }
    assert(args@.take(i as int) =~= args@);
    copies
}

// The text of a type.

/// The text of a lifetime in front of what it applies to.
pub open spec fn lifetime_text(lifetime: Option<Seq<char>>) -> Seq<char> {
    match lifetime {
        Some(l) => l + " "@,
        None => Seq::empty(),
    }
}

/// The text of `mut` in front of what it applies to.
pub open spec fn mutability_text(mutability: bool) -> Seq<char> {
    if mutability {
        "mut "@
    } else {
        Seq::empty()
    }
}

impl TypeModel {
    /// The type as it is written.
    pub open spec fn text(self) -> Seq<char>
        decreases self,
    {
        match self {
            TypeModel::Reference { lifetime, mutability, elem } => "&"@ + lifetime_text(lifetime)
                + mutability_text(mutability) + elem.text(),
            TypeModel::Path { head, ident, arguments } => pieces_text(head) + ident
                + arguments.text(),
            TypeModel::Sum(p) => pieces_text(p),
            TypeModel::Other(p) => pieces_text(p),
        }
    }
}

impl ArgumentsModel {
    /// The arguments as they are written, with their brackets.
    pub open spec fn text(self) -> Seq<char>
        decreases self,
    {
        match self {
            ArgumentsModel::Absent => Seq::empty(),
            ArgumentsModel::AngleBracketed { turbofish, args } => (if turbofish {
                "::<"@
            } else {
                "<"@
            }) + generics_text(args) + ">"@,
            ArgumentsModel::Parenthesized(p) => pieces_text(p),
        }
    }
}

impl GenericModel {
    /// The argument as it is written.
    pub open spec fn text(self) -> Seq<char>
        decreases self,
    {
        match self {
            GenericModel::Lifetime(l) => l,
            GenericModel::Type(t) => t.text(),
            GenericModel::Other(p) => pieces_text(p),
        }
    }
}

impl PieceModel {
    /// The piece as it is written.
    pub open spec fn text(self) -> Seq<char>
        decreases self,
    {
        match self {
            PieceModel::Text(s) => s,
            PieceModel::Lifetime(l) => l,
            PieceModel::Type(t) => t.text(),
        }
    }
}

/// Pieces as they are written, one after the other.
pub open spec fn pieces_text(s: Seq<PieceModel>) -> Seq<char>
    decreases s,
{
    if s.len() == 0 {
        Seq::empty()
    } else {
        pieces_text(s.drop_last()) + s.last().text()
    }
}

/// Arguments as they are written, with commas between them.
pub open spec fn generics_text(s: Seq<GenericModel>) -> Seq<char>
    decreases s,
{
    if s.len() == 0 {
        Seq::empty()
    } else if s.len() == 1 {
        s[0].text()
    } else {
        generics_text(s.drop_last()) + ", "@ + s.last().text()
    }
}

/// Writes a lifetime in front of what it applies to.
pub fn write_lifetime(lifetime: &Option<String>) -> (r: String)
    ensures
        r@ == lifetime_text(view_option(*lifetime)),
{
    match lifetime {
        Some(l) => {
            let mut text = l.clone();
            text.append(" ");
            text
        },
        None => String::new(),
    }
}

/// Writes `mut` in front of what it applies to.
pub fn write_mutability(mutability: bool) -> (r: String)
    ensures
        r@ == mutability_text(mutability),
{
    if mutability {
        "mut ".to_owned()
    } else {
        String::new()
    }
}

impl Type {
    /// Writes the type.
    pub fn text(&self) -> (r: String)
        ensures
            r@ == self@.text(),
        decreases self,
    {
        match self {
            Type::Reference(r) => {
                let mut text = "&".to_owned();
                text.append(write_lifetime(&r.lifetime).as_str());
                text.append(write_mutability(r.mutability).as_str());
                text.append((*r.elem).text().as_str());
                text
            },
            Type::Path(p) => {
                let mut text = write_pieces(&p.head);
                text.append(p.ident.as_str());
                text.append(p.arguments.text().as_str());
                text
            },
            Type::Sum(p) => write_pieces(p),
            Type::Other(p) => write_pieces(p),
        }
    }
}

impl PathArguments {
    /// Writes the arguments, with their brackets.
    pub fn text(&self) -> (r: String)
        ensures
            r@ == self.model().text(),
        decreases self,
    {
        match self {
            PathArguments::Absent => String::new(),
            PathArguments::AngleBracketed { turbofish, args } => {
                let mut text = if *turbofish {
                    "::<".to_owned()
                } else {
                    "<".to_owned()
                };
                text.append(write_generics(args).as_str());
                text.append(">");
                text
            },
            PathArguments::Parenthesized(p) => write_pieces(p),
        }
    }
}

impl GenericArgument {
    /// Writes the argument.
    pub fn text(&self) -> (r: String)
        ensures
            r@ == self.model().text(),
        decreases self,
    {
        match self {
            GenericArgument::Lifetime(l) => l.clone(),
            GenericArgument::Type(t) => t.text(),
            GenericArgument::Other(p) => write_pieces(p),
        }
    }
}

impl Piece {
    /// Writes the piece.
    pub fn text(&self) -> (r: String)
        ensures
            r@ == self.model().text(),
        decreases self,
    {
        match self {
            Piece::Text(s) => s.clone(),
            Piece::Lifetime(l) => l.clone(),
            Piece::Type(t) => t.text(),
        }
    }
}

fn write_generics(args: &Vec<GenericArgument>) -> (r: String)
    ensures
        r@ == generics_text(generics_model(args@)),
    decreases args@,
{
    let mut text = String::new();
    let mut i: usize = 0;
    assert(args@.take(0) =~= Seq::empty());
    while i < args.len()
        invariant
            i <= args@.len(),
            text@ == generics_text(generics_model(args@.take(i as int))),
        decreases args@.len() - i,
    {
        if i > 0 {
            text.append(", ");
        }
        text.append(args[i].text().as_str());
        i += 1;
        proof {
            lemma_generics_index(args@.take(i - 1));
            lemma_generics_step(args@, i as int);
        }
    }
    assert(args@.take(i as int) =~= args@);
    text
}

fn write_pieces(pieces: &Vec<Piece>) -> (r: String)
    ensures
        r@ == pieces_text(pieces_model(pieces@)),
    decreases pieces@,
{
    let mut text = String::new();
    let mut i: usize = 0;
    assert(pieces@.take(0) =~= Seq::empty());
    while i < pieces.len()
        invariant
            i <= pieces@.len(),
            text@ == pieces_text(pieces_model(pieces@.take(i as int))),
        decreases pieces@.len() - i,
    {
        text.append(pieces[i].text().as_str());
        i += 1;
        proof {
            lemma_pieces_step(pieces@, i as int);
        }
    }
    assert(pieces@.take(i as int) =~= pieces@);
    text
}

} // verus!
