//! What holds of everything that is written: numbers, patterns, types and statements.
use vstd::prelude::*;

use crate::parameter::ParameterModel;
use crate::parameters::{argument, ParametersModel};
use crate::statement::{joined, not_found_message};
use crate::syntax::{tokens_text, ErrorModel, PatModel, Place, TokenModel};
use crate::text::decimal_digits;
use crate::this::{KindModel, ThisModel};
use crate::types::{
    generics_text, pieces_text, ArgumentsModel, GenericModel, PieceModel, TypeModel,
};

verus! {

// Numbers.

/// The number that decimal digits stand for.
pub open spec fn decimal_value(s: Seq<char>) -> int
    decreases s.len(),
{
    if s.len() == 0 {
        0
    } else {
        10 * decimal_value(s.drop_last()) + (s.last() as int - '0' as int)
    }
}

/// A number is written in decimal digits that stand for it, without a zero in front.
pub proof fn law_decimal(n: nat)
    ensures
        decimal_value(decimal_digits(n)) == n,
        decimal_digits(n).len() > 0,
        forall|i: int|
            0 <= i < decimal_digits(n).len() ==> '0' <= #[trigger] decimal_digits(n)[i] && (
            decimal_digits(n)[i] <= '9'),
        decimal_digits(n).len() > 1 ==> decimal_digits(n)[0] != '0',
    decreases n,
{
    let s = decimal_digits(n);
    reveal_with_fuel(decimal_value, 2);
    if n < 10 {
        assert(s.drop_last() =~= Seq::empty());
    } else {
        law_decimal(n / 10);
        let before = decimal_digits(n / 10);
        assert(s.drop_last() =~= before);
        assert forall|i: int| 0 <= i < s.len() implies '0' <= #[trigger] s[i] && s[i] <= '9' by {
            if i < before.len() {
                assert(s[i] == before[i]);
            }
        }
        assert(s[0] == before[0]);
        if before.len() == 1 {
            assert(before.drop_last() =~= Seq::empty());
            assert(decimal_value(before) == before[0] as int - '0' as int);
        }
    }
}

/// Different numbers are written differently.
pub proof fn law_numbers_told_apart(a: nat, b: nat)
    requires
        decimal_digits(a) == decimal_digits(b),
    ensures
        a == b,
{
    law_decimal(a);
    law_decimal(b);
}

// Patterns.

/// A name: it has no space in it, and it is no keyword of a pattern.
pub open spec fn is_name(s: Seq<char>) -> bool {
    &&& s.len() > 0
    &&& forall|i: int| 0 <= i < s.len() ==> #[trigger] s[i] != ' '
    &&& s != "ref"@
    &&& s != "mut"@
}

/// A pattern that binds nothing but a name is written as the name. `ref`, `mut` and what stands
/// behind `@` are written where they are there, and each of them does not depend on the others; the
/// place of the pattern does not matter.
pub proof fn law_pattern_text(
    by_ref: bool,
    mutability: bool,
    ident: Seq<char>,
    subpat: Option<Seq<char>>,
    behind: Seq<char>,
    span: Place,
    other: Place,
)
    ensures
        ({
            let text = |r: bool, m: bool, p: Option<Seq<char>>, at: Place|
                (PatModel::Ident { by_ref: r, mutability: m, ident, subpat: p, span: at }).text();
            &&& text(false, false, None, span) == ident
            &&& text(true, mutability, subpat, span) == "ref "@ + text(
                false,
                mutability,
                subpat,
                span,
            )
            &&& text(false, true, subpat, span) == "mut "@ + text(false, false, subpat, span)
            &&& text(by_ref, mutability, Some(behind), span) == text(
                by_ref,
                mutability,
                None,
                span,
            ) + " @ "@ + behind
            &&& text(by_ref, mutability, subpat, span) == text(by_ref, mutability, subpat, other)
        }),
{
    let text = |r: bool, m: bool, p: Option<Seq<char>>, at: Place|
        (PatModel::Ident { by_ref: r, mutability: m, ident, subpat: p, span: at }).text();
    assert(text(false, false, None, span) =~= ident);
    assert(text(true, mutability, subpat, span) =~= "ref "@ + text(
        false,
        mutability,
        subpat,
        span,
    ));
    assert(text(false, true, subpat, span) =~= "mut "@ + text(false, false, subpat, span));
    assert(text(by_ref, mutability, Some(behind), span) =~= text(by_ref, mutability, None, span)
        + " @ "@ + behind);
}

/// Any other pattern is written as it was.
pub proof fn law_other_pattern_text(text: Seq<char>, span: Place)
    ensures
        (PatModel::Other { text, span }).text() == text,
{
}

proof fn lemma_first_word(a: Seq<char>, x: Seq<char>, b: Seq<char>, y: Seq<char>, mark: char)
    requires
        forall|i: int| 0 <= i < a.len() ==> #[trigger] a[i] != mark,
        forall|i: int| 0 <= i < b.len() ==> #[trigger] b[i] != mark,
        x.len() > 0 ==> x[0] == mark,
        y.len() > 0 ==> y[0] == mark,
        a + x == b + y,
    ensures
        a == b,
        x == y,
{
    let t = a + x;
    let u = b + y;
    if a.len() < b.len() {
        assert(t[a.len() as int] == x[0]);
        assert(u[a.len() as int] == b[a.len() as int]);
    } else if b.len() < a.len() {
        assert(u[b.len() as int] == y[0]);
        assert(t[b.len() as int] == a[b.len() as int]);
    }
    assert forall|i: int| 0 <= i < a.len() implies a[i] == b[i] by {
        assert(t[i] == u[i]);
    }
    assert(a =~= b);
    assert(x =~= t.skip(a.len() as int));
    assert(y =~= u.skip(b.len() as int));
}

spec fn behind_text(subpat: Option<Seq<char>>) -> Seq<char> {
    match subpat {
        Some(p) => " @ "@ + p,
        None => Seq::empty(),
    }
}

spec fn no_space(s: Seq<char>) -> bool {
    forall|i: int| 0 <= i < s.len() ==> #[trigger] s[i] != ' '
}

spec fn with_word(word: Seq<char>, on: bool, text: Seq<char>) -> Seq<char> {
    if on {
        word + (seq![' '] + text)
    } else {
        text
    }
}

/// A word in front of a text that begins with another one is told from no word.
proof fn lemma_word(
    word: Seq<char>,
    on_a: bool,
    a: Seq<char>,
    x: Seq<char>,
    on_b: bool,
    b: Seq<char>,
    y: Seq<char>,
)
    requires
        no_space(word),
        no_space(a),
        no_space(b),
        a != word,
        b != word,
        x.len() > 0 ==> x[0] == ' ',
        y.len() > 0 ==> y[0] == ' ',
        with_word(word, on_a, a + x) == with_word(word, on_b, b + y),
    ensures
        on_a == on_b,
        a + x == b + y,
{
    let after_a = seq![' '] + (a + x);
    let after_b = seq![' '] + (b + y);
    if on_a && on_b {
        lemma_first_word(word, after_a, word, after_b, ' ');
        assert(a + x =~= after_a.skip(1));
        assert(b + y =~= after_b.skip(1));
    } else if on_a {
        lemma_first_word(word, after_a, b, y, ' ');
    } else if on_b {
        lemma_first_word(a, x, word, after_b, ' ');
    }
}

spec fn mut_text(on: bool, ident: Seq<char>, subpat: Option<Seq<char>>) -> Seq<char> {
    with_word("mut"@, on, ident + behind_text(subpat))
}

proof fn lemma_pattern_words(
    by_ref: bool,
    mutability: bool,
    ident: Seq<char>,
    subpat: Option<Seq<char>>,
    span: Place,
)
    ensures
        (PatModel::Ident { by_ref, mutability, ident, subpat, span }).text() == with_word(
            "ref"@,
            by_ref,
            mut_text(mutability, ident, subpat),
        ),
{
    reveal_strlit("ref ");
    reveal_strlit("ref");
    reveal_strlit("mut ");
    reveal_strlit("mut");
    assert("ref "@ =~= "ref"@ + seq![' ']);
    assert("mut "@ =~= "mut"@ + seq![' ']);
    assert((PatModel::Ident { by_ref, mutability, ident, subpat, span }).text() =~= with_word(
        "ref"@,
        by_ref,
        mut_text(mutability, ident, subpat),
    ));
}

/// The text of a pattern that binds a name tells everything of it: whether it binds by reference,
/// whether it is mutable, the name, and what stands behind `@`.
pub proof fn law_patterns_told_apart(
    ref_a: bool,
    mut_a: bool,
    a: Seq<char>,
    sub_a: Option<Seq<char>>,
    span_a: Place,
    ref_b: bool,
    mut_b: bool,
    b: Seq<char>,
    sub_b: Option<Seq<char>>,
    span_b: Place,
)
    requires
        is_name(a),
        is_name(b),
        (PatModel::Ident {
            by_ref: ref_a,
            mutability: mut_a,
            ident: a,
            subpat: sub_a,
            span: span_a,
        }).text() == (PatModel::Ident {
            by_ref: ref_b,
            mutability: mut_b,
            ident: b,
            subpat: sub_b,
            span: span_b,
        }).text(),
    ensures
        ref_a == ref_b,
        mut_a == mut_b,
        a == b,
        sub_a == sub_b,
{
    reveal_strlit("ref");
    reveal_strlit("mut");
    reveal_strlit(" @ ");
    lemma_pattern_words(ref_a, mut_a, a, sub_a, span_a);
    lemma_pattern_words(ref_b, mut_b, b, sub_b, span_b);
    let (first_a, rest_a) = if mut_a {
        ("mut"@, seq![' '] + (a + behind_text(sub_a)))
    } else {
        (a, behind_text(sub_a))
    };
    let (first_b, rest_b) = if mut_b {
        ("mut"@, seq![' '] + (b + behind_text(sub_b)))
    } else {
        (b, behind_text(sub_b))
    };
    assert("mut"@[0] != "ref"@[0]);
    lemma_word("ref"@, ref_a, first_a, rest_a, ref_b, first_b, rest_b);
    lemma_word("mut"@, mut_a, a, behind_text(sub_a), mut_b, b, behind_text(sub_b));
    lemma_first_word(a, behind_text(sub_a), b, behind_text(sub_b), ' ');
    if sub_a is Some && sub_b is Some {
        assert(sub_a.unwrap() =~= behind_text(sub_a).skip(3));
        assert(sub_b.unwrap() =~= behind_text(sub_b).skip(3));
    }
}

/// The text of an argument tells the pattern and the type that it was written from, where the
/// patterns have no colon in them.
pub proof fn law_arguments_told_apart(a: PatModel, x: TypeModel, b: PatModel, y: TypeModel)
    requires
        forall|i: int| 0 <= i < a.text().len() ==> #[trigger] a.text()[i] != ':',
        forall|i: int| 0 <= i < b.text().len() ==> #[trigger] b.text()[i] != ':',
        argument(a, x.text()).text == argument(b, y.text()).text,
    ensures
        a.text() == b.text(),
        x.text() == y.text(),
{
    reveal_strlit(": ");
    let rest_x = ": "@ + x.text();
    let rest_y = ": "@ + y.text();
    assert(a.text() + ": "@ + x.text() =~= a.text() + rest_x);
    assert(b.text() + ": "@ + y.text() =~= b.text() + rest_y);
    lemma_first_word(a.text(), rest_x, b.text(), rest_y, ':');
    assert(x.text() =~= rest_x.skip(2));
    assert(y.text() =~= rest_y.skip(2));
}

// Types.

/// A reference is written `&`, its lifetime where there is one, `mut` where it is mutable, and what
/// it refers to.
pub proof fn law_reference_text(lifetime: Seq<char>, mutability: bool, elem: TypeModel)
    ensures
        ({
            let text = |l: Option<Seq<char>>, m: bool|
                (TypeModel::Reference { lifetime: l, mutability: m, elem: Box::new(elem) }).text();
            &&& text(None, false) == "&"@ + elem.text()
            &&& text(None, true) == "&"@ + "mut "@ + elem.text()
            &&& text(Some(lifetime), mutability) == "&"@ + lifetime + " "@ + text(
                None,
                mutability,
            ).skip(1)
        }),
{
    reveal_strlit("&");
    let text = |l: Option<Seq<char>>, m: bool|
        (TypeModel::Reference { lifetime: l, mutability: m, elem: Box::new(elem) }).text();
    assert(text(None, false) =~= "&"@ + elem.text());
    assert(text(None, true) =~= "&"@ + "mut "@ + elem.text());
    assert(text(Some(lifetime), mutability) =~= "&"@ + lifetime + " "@ + text(
        None,
        mutability,
    ).skip(1));
}

/// A path is written as what stands before its last segment, the name and the arguments of that
/// segment. Angle brackets have `::` in front of them where they were written with it.
pub proof fn law_path_text(
    head: Seq<PieceModel>,
    ident: Seq<char>,
    args: Seq<GenericModel>,
    pieces: Seq<PieceModel>,
)
    ensures
        ({
            let text = |arguments: ArgumentsModel|
                (TypeModel::Path { head, ident, arguments }).text();
            let bare = pieces_text(head) + ident;
            &&& text(ArgumentsModel::Absent) == bare
            &&& text(ArgumentsModel::AngleBracketed { turbofish: false, args }) == bare + "<"@
                + generics_text(args) + ">"@
            &&& text(ArgumentsModel::AngleBracketed { turbofish: true, args }) == bare + "::<"@
                + generics_text(args) + ">"@
            &&& text(ArgumentsModel::Parenthesized(pieces)) == bare + pieces_text(pieces)
        }),
{
    let text = |arguments: ArgumentsModel| (TypeModel::Path { head, ident, arguments }).text();
    let bare = pieces_text(head) + ident;
    reveal_with_fuel(TypeModel::text, 2);
    reveal_with_fuel(ArgumentsModel::text, 2);
    assert(text(ArgumentsModel::Absent) =~= bare);
    assert(text(ArgumentsModel::AngleBracketed { turbofish: false, args }) =~= bare + "<"@
        + generics_text(args) + ">"@);
    assert(text(ArgumentsModel::AngleBracketed { turbofish: true, args }) =~= bare + "::<"@
        + generics_text(args) + ">"@);
    assert(text(ArgumentsModel::Parenthesized(pieces)) =~= bare + pieces_text(pieces));
}

/// Types that are not taken apart are written as their pieces.
pub proof fn law_pieces_type_text(pieces: Seq<PieceModel>)
    ensures
        TypeModel::Sum(pieces).text() == pieces_text(pieces),
        TypeModel::Other(pieces).text() == pieces_text(pieces),
{
}

/// Pieces are written one after the other, each as what it holds.
pub proof fn law_pieces_text(
    a: Seq<PieceModel>,
    b: Seq<PieceModel>,
    text: Seq<char>,
    ty: TypeModel,
)
    ensures
        pieces_text(a + b) == pieces_text(a) + pieces_text(b),
        pieces_text(seq![PieceModel::Text(text)]) == text,
        pieces_text(seq![PieceModel::Lifetime(text)]) == text,
        pieces_text(seq![PieceModel::Type(ty)]) == ty.text(),
    decreases b.len(),
{
    reveal_with_fuel(pieces_text, 2);
    reveal_with_fuel(PieceModel::text, 2);
    let empty = Seq::<PieceModel>::empty();
    assert(seq![PieceModel::Text(text)].drop_last() =~= empty);
    assert(seq![PieceModel::Lifetime(text)].drop_last() =~= empty);
    assert(seq![PieceModel::Type(ty)].drop_last() =~= empty);
    assert(pieces_text(seq![PieceModel::Text(text)]) =~= text);
    assert(pieces_text(seq![PieceModel::Lifetime(text)]) =~= text);
    assert(pieces_text(seq![PieceModel::Type(ty)]) =~= ty.text());
    if b.len() == 0 {
        assert(a + b =~= a);
        assert(pieces_text(a) + pieces_text(b) =~= pieces_text(a));
    } else {
        law_pieces_text(a, b.drop_last(), text, ty);
        assert((a + b).drop_last() =~= a + b.drop_last());
        assert(pieces_text(a + b) =~= pieces_text(a) + pieces_text(b));
    }
}

/// Arguments between angle brackets are written each as what it holds, with a comma and a space
/// between any two.
pub proof fn law_generics_text(
    a: Seq<GenericModel>,
    b: Seq<GenericModel>,
    lifetime: Seq<char>,
    ty: TypeModel,
    pieces: Seq<PieceModel>,
)
    ensures
        generics_text(Seq::empty()) == Seq::<char>::empty(),
        generics_text(seq![GenericModel::Lifetime(lifetime)]) == lifetime,
        generics_text(seq![GenericModel::Type(ty)]) == ty.text(),
        generics_text(seq![GenericModel::Other(pieces)]) == pieces_text(pieces),
        a.len() > 0 && b.len() > 0 ==> generics_text(a + b) == generics_text(a) + ", "@
            + generics_text(b),
    decreases b.len(),
{
    reveal_with_fuel(generics_text, 2);
    reveal_with_fuel(GenericModel::text, 2);
    if a.len() > 0 && b.len() > 0 {
        assert((a + b).drop_last() =~= a + b.drop_last());
        if b.len() == 1 {
            assert(a + b.drop_last() =~= a);
        } else {
            law_generics_text(a, b.drop_last(), lifetime, ty, pieces);
        }
        assert(generics_text(a + b) =~= generics_text(a) + ", "@ + generics_text(b));
    }
}

// Tokens and statements.

/// Tokens are written one after the other, with a space between any two unless the first is joined
/// to the second.
pub proof fn law_tokens_text(a: Seq<TokenModel>, b: Seq<TokenModel>, token: TokenModel)
    ensures
        tokens_text(seq![token]) == token.text,
        a.len() > 0 && b.len() > 0 && a.last().joint ==> tokens_text(a + b) == tokens_text(a)
            + tokens_text(b),
        a.len() > 0 && b.len() > 0 && !a.last().joint ==> tokens_text(a + b) == tokens_text(a)
            + " "@ + tokens_text(b),
    decreases b.len(),
{
    reveal_with_fuel(tokens_text, 2);
    assert(seq![token].drop_last() =~= Seq::empty());
    assert(tokens_text(seq![token]) =~= token.text);
    if a.len() > 0 && b.len() > 0 {
        assert((a + b).drop_last() =~= a + b.drop_last());
        let sep = if a.last().joint {
            Seq::<char>::empty()
        } else {
            " "@
        };
        if b.len() == 1 {
            assert(a + b.drop_last() =~= a);
            assert(b.drop_last() =~= Seq::empty());
            assert(tokens_text(b) =~= b.last().text);
            assert(tokens_text(a + b) =~= tokens_text(a) + sep + tokens_text(b));
        } else {
            law_tokens_text(a, b.drop_last(), token);
            assert((a + b.drop_last()).last() == b.drop_last().last());
            assert(tokens_text(a + b) =~= tokens_text(a) + sep + tokens_text(b));
        }
        assert(tokens_text(a) + Seq::<char>::empty() + tokens_text(b) =~= tokens_text(a)
            + tokens_text(b));
    }
}

/// Statements are written one after the other, with a space between any two.
pub proof fn law_joined(a: Seq<Seq<char>>, b: Seq<Seq<char>>, text: Seq<char>)
    ensures
        joined(Seq::empty()) == Seq::<char>::empty(),
        joined(seq![text]) == text,
        a.len() > 0 && b.len() > 0 ==> joined(a + b) == joined(a) + " "@ + joined(b),
    decreases b.len(),
{
    if a.len() > 0 && b.len() > 0 {
        assert((a + b).drop_last() =~= a + b.drop_last());
        if b.len() == 1 {
            assert(a + b.drop_last() =~= a);
        } else {
            law_joined(a, b.drop_last(), text);
        }
        assert(joined(a + b) =~= joined(a) + " "@ + joined(b));
    }
}

/// What is reported where a value is missing names the parameter, where its pattern binds a name,
/// and tells its index.
pub proof fn law_message(name: Seq<char>, index: nat)
    ensures
        not_found_message(Some(name), index) == "Argument "@ + name + " at index "@
            + decimal_digits(index) + " was not found."@,
        not_found_message(None, index) == "Argument at index "@ + decimal_digits(index)
            + " was not found."@,
{
}

/// The context and the arguments of a call are bound under the pattern of the parameter, with its
/// type without lifetimes, whatever the index and the literal are.
pub proof fn law_variable_statements(
    pat: PatModel,
    ty: TypeModel,
    index: nat,
    literal: Seq<char>,
)
    ensures
        ({
            let binding = "let "@ + pat.text() + ": "@ + ty.without_lifetimes().text() + " = "@;
            &&& ParameterModel::Context(pat, ty).statement_text(index, literal) == binding + "cx"@
                + ";"@
            &&& ParameterModel::Arguments(pat, ty).statement_text(index, literal) == binding
                + "args"@ + ";"@
        }),
{
}

/// The statement of a parameter that takes all the values that are left: it binds the pattern, with
/// the type without lifetimes, to the values from `index` on, and hands to each conversion first
/// the word `true` if and only if the parameter is strict, and then the conversion.
pub proof fn law_varargs_statement(
    pat: PatModel,
    ty: TypeModel,
    conversion: Seq<char>,
    strict: bool,
    index: nat,
    literal: Seq<char>,
)
    ensures
        (ParameterModel::VarArgs { pat, ty, conversion, strict }).statement_text(index, literal)
            == "let "@ + pat.text() + ": "@ + ty.without_lifetimes().text() + " = "@
            + "args.range("@ + (decimal_digits(index) + "usize"@)
            + "..=args.len()).into_iter().map(|value| { ::ion::conversions::FromValue::from_value(cx, value, "@
            + (if strict {
            "true"@
        } else {
            "false"@
        }) + ", "@ + conversion + ") }).collect::<::ion::Result<_>>()?;"@,
{
}

/// The statement of a parameter that is converted from one value: it binds the pattern, with the
/// type without lifetimes, to the value at `index`, converted to that type, strictly if and only if
/// the parameter is strict, and by its conversion. Where the value is missing, an optional
/// parameter is `None`, and any other one returns an error with the message in the literal.
pub proof fn law_regular_statement(
    pat: PatModel,
    ty: TypeModel,
    conversion: Seq<char>,
    strict: bool,
    option: Option<TypeModel>,
    index: nat,
    literal: Seq<char>,
)
    ensures
        (ParameterModel::Regular { pat, ty, conversion, strict, option }).statement_text(
            index,
            literal,
        ) == "let "@ + pat.text() + ": "@ + ty.without_lifetimes().text() + " = "@ + "match "@ + (
        "args.value("@ + (decimal_digits(index) + "usize"@) + ")"@)
            + " { ::std::option::Option::Some(value) => <"@ + ty.without_lifetimes().text()
            + " as ::ion::conversions::FromValue>::from_value(cx, value, "@ + (if strict {
            "true"@
        } else {
            "false"@
        }) + ", "@ + conversion + ")?, ::std::option::Option::None => "@ + (match option {
            Some(_) => "::std::option::Option::None"@,
            None => "return Err(::ion::Error::new("@ + literal
                + ", ::ion::ErrorKind::Type).into())"@,
        }) + ", };"@,
{
}

/// Whether a parameter is strict changes its statement, and nothing but one word of it.
pub proof fn law_strict_is_written(
    pat: PatModel,
    ty: TypeModel,
    conversion: Seq<char>,
    option: Option<TypeModel>,
    index: nat,
    literal: Seq<char>,
)
    ensures
        ({
            let varargs = |strict: bool|
                (ParameterModel::VarArgs { pat, ty, conversion, strict }).statement_text(
                    index,
                    literal,
                );
            let regular = |strict: bool|
                (ParameterModel::Regular { pat, ty, conversion, strict, option }).statement_text(
                    index,
                    literal,
                );
            &&& varargs(true) != varargs(false)
            &&& regular(true) != regular(false)
            &&& exists|before: Seq<char>, after: Seq<char>|
                varargs(true) == #[trigger] (before + "true"@ + after) && varargs(false) == before
                    + "false"@ + after
            &&& exists|before: Seq<char>, after: Seq<char>|
                regular(true) == #[trigger] (before + "true"@ + after) && regular(false) == before
                    + "false"@ + after
        }),
{
    reveal_strlit("true");
    reveal_strlit("false");
    let binding = "let "@ + pat.text() + ": "@ + ty.without_lifetimes().text() + " = "@;
    let varargs = |strict: bool|
        (ParameterModel::VarArgs { pat, ty, conversion, strict }).statement_text(index, literal);
    let regular = |strict: bool|
        (ParameterModel::Regular { pat, ty, conversion, strict, option }).statement_text(
            index,
            literal,
        );
    let before = binding + "args.range("@ + (decimal_digits(index) + "usize"@)
        + "..=args.len()).into_iter().map(|value| { ::ion::conversions::FromValue::from_value(cx, value, "@;
    let after = ", "@ + conversion + ") }).collect::<::ion::Result<_>>()?;"@;
    assert(varargs(true) =~= before + "true"@ + after);
    assert(varargs(false) =~= before + "false"@ + after);
    let first = binding + "match "@ + ("args.value("@ + (decimal_digits(index) + "usize"@) + ")"@)
        + " { ::std::option::Option::Some(value) => <"@ + ty.without_lifetimes().text()
        + " as ::ion::conversions::FromValue>::from_value(cx, value, "@;
    let last = ", "@ + conversion + ")?, ::std::option::Option::None => "@ + (match option {
        Some(_) => "::std::option::Option::None"@,
        None => "return Err(::ion::Error::new("@ + literal + ", ::ion::ErrorKind::Type).into())"@,
    }) + ", };"@;
    assert(regular(true) =~= first + "true"@ + last);
    assert(regular(false) =~= first + "false"@ + last);
    assert((before + "true"@ + after).len() != (before + "false"@ + after).len());
    assert((first + "true"@ + last).len() != (first + "false"@ + last).len());
}

/// The statements of parameters that differ in nothing but their conversions, differ in nothing
/// else, and do differ.
pub proof fn law_conversion_is_written(
    pat: PatModel,
    ty: TypeModel,
    strict: bool,
    option: Option<TypeModel>,
    index: nat,
    literal: Seq<char>,
    a: Seq<char>,
    b: Seq<char>,
)
    requires
        a != b,
    ensures
        (ParameterModel::VarArgs { pat, ty, conversion: a, strict }).statement_text(index, literal)
            != (ParameterModel::VarArgs { pat, ty, conversion: b, strict }).statement_text(
            index,
            literal,
        ),
        (ParameterModel::Regular { pat, ty, conversion: a, strict, option }).statement_text(
            index,
            literal,
        ) != (ParameterModel::Regular { pat, ty, conversion: b, strict, option }).statement_text(
            index,
            literal,
        ),
{
    let binding = "let "@ + pat.text() + ": "@ + ty.without_lifetimes().text() + " = "@;
    let word = if strict {
        "true"@
    } else {
        "false"@
    };
    let before = binding + "args.range("@ + (decimal_digits(index) + "usize"@)
        + "..=args.len()).into_iter().map(|value| { ::ion::conversions::FromValue::from_value(cx, value, "@
        + word + ", "@;
    let after = ") }).collect::<::ion::Result<_>>()?;"@;
    let first = binding + "match "@ + ("args.value("@ + (decimal_digits(index) + "usize"@) + ")"@)
        + " { ::std::option::Option::Some(value) => <"@ + ty.without_lifetimes().text()
        + " as ::ion::conversions::FromValue>::from_value(cx, value, "@ + word + ", "@;
    let last = ")?, ::std::option::Option::None => "@ + (match option {
        Some(_) => "::std::option::Option::None"@,
        None => "return Err(::ion::Error::new("@ + literal + ", ::ion::ErrorKind::Type).into())"@,
    }) + ", };"@;
    assert forall|c: Seq<char>|
        (#[trigger] (ParameterModel::VarArgs { pat, ty, conversion: c, strict }).statement_text(
            index,
            literal,
        )) == before + c + after by {
        assert((ParameterModel::VarArgs { pat, ty, conversion: c, strict }).statement_text(
            index,
            literal,
        ) =~= before + c + after);
    }
    assert forall|c: Seq<char>|
        (#[trigger] (ParameterModel::Regular {
            pat,
            ty,
            conversion: c,
            strict,
            option,
        }).statement_text(index, literal)) == first + c + last by {
        assert((ParameterModel::Regular { pat, ty, conversion: c, strict, option }).statement_text(
            index,
            literal,
        ) =~= first + c + last);
    }
    lemma_middle(before, a, b, after);
    lemma_middle(first, a, b, last);
}

/// The statements of a parameter at two indexes differ, also with the same literal.
pub proof fn law_index_is_written(
    pat: PatModel,
    ty: TypeModel,
    conversion: Seq<char>,
    strict: bool,
    option: Option<TypeModel>,
    literal: Seq<char>,
    i: nat,
    j: nat,
)
    requires
        i != j,
    ensures
        (ParameterModel::VarArgs { pat, ty, conversion, strict }).statement_text(i, literal) != (
        ParameterModel::VarArgs { pat, ty, conversion, strict }).statement_text(j, literal),
        (ParameterModel::Regular { pat, ty, conversion, strict, option }).statement_text(i, literal)
            != (ParameterModel::Regular { pat, ty, conversion, strict, option }).statement_text(
            j,
            literal,
        ),
{
    if decimal_digits(i) == decimal_digits(j) {
        law_numbers_told_apart(i, j);
    }
    let binding = "let "@ + pat.text() + ": "@ + ty.without_lifetimes().text() + " = "@;
    let word = if strict {
        "true"@
    } else {
        "false"@
    };
    lemma_behind(decimal_digits(i), decimal_digits(j), "usize"@);
    let number_i = decimal_digits(i) + "usize"@;
    let number_j = decimal_digits(j) + "usize"@;
    // All the values that are left.
    let before = binding + "args.range("@;
    lemma_before(before, number_i, number_j);
    let rest = seq![
        "..=args.len()).into_iter().map(|value| { ::ion::conversions::FromValue::from_value(cx, value, "@,
        word,
        ", "@,
        conversion,
        ") }).collect::<::ion::Result<_>>()?;"@,
    ];
    lemma_chain(before + number_i, before + number_j, rest);
    reveal_with_fuel(chained, 6);
    assert((ParameterModel::VarArgs { pat, ty, conversion, strict }).statement_text(i, literal)
        == chained(before + number_i, rest));
    assert((ParameterModel::VarArgs { pat, ty, conversion, strict }).statement_text(j, literal)
        == chained(before + number_j, rest));
    lemma_regular_index(pat, ty, conversion, strict, option, literal, i, j);
}

proof fn lemma_regular_index(
    pat: PatModel,
    ty: TypeModel,
    conversion: Seq<char>,
    strict: bool,
    option: Option<TypeModel>,
    literal: Seq<char>,
    i: nat,
    j: nat,
)
    requires
        decimal_digits(i) != decimal_digits(j),
    ensures
        (ParameterModel::Regular { pat, ty, conversion, strict, option }).statement_text(i, literal)
            != (ParameterModel::Regular { pat, ty, conversion, strict, option }).statement_text(
            j,
            literal,
        ),
{
    let binding = "let "@ + pat.text() + ": "@ + ty.without_lifetimes().text() + " = "@;
    let word = if strict {
        "true"@
    } else {
        "false"@
    };
    lemma_behind(decimal_digits(i), decimal_digits(j), "usize"@);
    let number_i = decimal_digits(i) + "usize"@;
    let number_j = decimal_digits(j) + "usize"@;
    lemma_before("args.value("@, number_i, number_j);
    lemma_behind("args.value("@ + number_i, "args.value("@ + number_j, ")"@);
    let value_i = "args.value("@ + number_i + ")"@;
    let value_j = "args.value("@ + number_j + ")"@;
    let first = binding + "match "@;
    lemma_before(first, value_i, value_j);
    let none = match option {
        Some(_) => "::std::option::Option::None"@,
        None => "return Err(::ion::Error::new("@ + literal + ", ::ion::ErrorKind::Type).into())"@,
    };
    let last = seq![
        " { ::std::option::Option::Some(value) => <"@,
        ty.without_lifetimes().text(),
        " as ::ion::conversions::FromValue>::from_value(cx, value, "@,
        word,
        ", "@,
        conversion,
        ")?, ::std::option::Option::None => "@,
        none,
        ", };"@,
    ];
    lemma_chain(first + value_i, first + value_j, last);
    reveal_with_fuel(chained, 10);
    assert((ParameterModel::Regular { pat, ty, conversion, strict, option }).statement_text(
        i,
        literal,
    ) == chained(first + value_i, last));
    assert((ParameterModel::Regular { pat, ty, conversion, strict, option }).statement_text(
        j,
        literal,
    ) == chained(first + value_j, last));
}

spec fn chained(text: Seq<char>, rest: Seq<Seq<char>>) -> Seq<char>
    decreases rest.len(),
{
    if rest.len() == 0 {
        text
    } else {
        chained(text + rest[0], rest.skip(1))
    }
}

proof fn lemma_chain(a: Seq<char>, b: Seq<char>, rest: Seq<Seq<char>>)
    requires
        a != b,
    ensures
        chained(a, rest) != chained(b, rest),
    decreases rest.len(),
{
    if rest.len() > 0 {
        lemma_behind(a, b, rest[0]);
        lemma_chain(a + rest[0], b + rest[0], rest.skip(1));
    }
}

proof fn lemma_behind(a: Seq<char>, b: Seq<char>, t: Seq<char>)
    requires
        a != b,
    ensures
        a + t != b + t,
{
    if a + t == b + t {
        assert((a + t).len() == a.len() + t.len() && (b + t).len() == b.len() + t.len());
        assert(a =~= (a + t).take(a.len() as int));
        assert(b =~= (b + t).take(b.len() as int));
    }
}

proof fn lemma_before(t: Seq<char>, a: Seq<char>, b: Seq<char>)
    requires
        a != b,
    ensures
        t + a != t + b,
{
    if t + a == t + b {
        assert(a =~= (t + a).skip(t.len() as int));
        assert(b =~= (t + b).skip(t.len() as int));
    }
}

proof fn lemma_middle(before: Seq<char>, a: Seq<char>, b: Seq<char>, after: Seq<char>)
    requires
        a != b,
    ensures
        before + a + after != before + b + after,
{
    let x = before + a + after;
    let y = before + b + after;
    if x == y {
        assert(x.len() == before.len() + a.len() + after.len());
        assert(y.len() == before.len() + b.len() + after.len());
        assert(a =~= x.subrange(before.len() as int, (before.len() + a.len()) as int));
        assert(b =~= y.subrange(before.len() as int, (before.len() + b.len()) as int));
    }
}

/// A method of a class gets its receiver from the object of the call, by a reference with the
/// lifetime and the mutability of the receiver. What is called `self` is called `self_`, and
/// nothing else gets another name.
pub proof fn law_class_receiver_statements(
    pat: PatModel,
    ty: TypeModel,
    lifetime: Option<Seq<char>>,
    mutability: bool,
)
    ensures
        ({
            let this = ThisModel { pat, ty, kind: KindModel::Ref(lifetime, mutability) };
            let name = match pat {
                PatModel::Ident { by_ref: false, mutability: false, ident, subpat: None, .. } =>
                    if ident == "self"@ {
                    "self_"@
                } else {
                    pat.text()
                },
                _ => pat.text(),
            };
            let whole = TypeModel::Reference { lifetime, mutability, elem: Box::new(ty) };
            &&& this.statement_texts(true) == Ok::<Seq<Seq<char>>, ErrorModel>(
                seq![
                    "let mut this = args.this().to_object(cx);"@,
                    "let "@ + name + ": "@ + whole.text() + " = <"@ + ty.text()
                        + " as ::ion::ClassInitialiser>::get_private(&mut this);"@,
                ],
            )
            &&& this.async_class_texts() == Ok::<
                (Seq<char>, Seq<Seq<char>>),
                ErrorModel,
            >(
                (
                    "let "@ + name + ": &'static "@ + (if mutability {
                        "mut "@
                    } else {
                        Seq::empty()
                    }) + ty.text() + ";"@,
                    seq![
                        "let mut this2 = this.take().unwrap().take().into();"@,
                        "self_ = ::std::mem::transmute(<"@ + ty.text()
                            + " as ::ion::ClassInitialiser>::get_private(&mut this2));"@,
                        "this = ::std::option::Option::Some(::ion::utils::SendWrapper::new(this2.into_local()));"@,
                    ],
                ),
            )
        }),
{
    reveal_strlit(": &");
    reveal_strlit(": ");
    reveal_strlit("&");
    let this = ThisModel { pat, ty, kind: KindModel::Ref(lifetime, mutability) };
    let whole = TypeModel::Reference { lifetime, mutability, elem: Box::new(ty) };
    let texts = this.statement_texts(true)->Ok_0;
    assert(": &"@ =~= ": "@ + "&"@);
    assert(texts[1] =~= "let "@ + this.name_text() + ": "@ + whole.text() + " = <"@ + ty.text()
        + " as ::ion::ClassInitialiser>::get_private(&mut this);"@);
    assert(texts =~= seq![
        "let mut this = args.this().to_object(cx);"@,
        "let "@ + this.name_text() + ": "@ + whole.text() + " = <"@ + ty.text()
            + " as ::ion::ClassInitialiser>::get_private(&mut this);"@,
    ]);
}

/// Outside of a class, the receiver is converted from `this`, strictly, under its own pattern,
/// however it is taken.
pub proof fn law_receiver_statement(pat: PatModel, ty: TypeModel, kind: KindModel)
    ensures
        (ThisModel { pat, ty, kind }).statement_texts(false) == Ok::<
            Seq<Seq<char>>,
            ErrorModel,
        >(
            seq![
                "let "@ + pat.text() + ": "@ + ty.text() + " = <"@ + ty.text()
                    + " as ::ion::conversions::FromValue>::from_value(cx, args.this(), true, ())?;"@,
            ],
        ),
{
}

/// A method of a class whose receiver is taken by value is refused, at the place of the pattern, or
/// at the call of the macro where that is `self`.
pub proof fn law_owned_receiver_refused(pat: PatModel, ty: TypeModel)
    ensures
        ({
            let this = ThisModel { pat, ty, kind: KindModel::Owned };
            let span = match pat {
                PatModel::Ident { by_ref: false, mutability: false, ident, subpat: None, span } =>
                    if ident == "self"@ {
                    Place::CallSite
                } else {
                    span
                },
                PatModel::Ident { span, .. } => span,
                PatModel::Other { span, .. } => span,
            };
            let error = ErrorModel {
                span,
                message: "Self cannot be owned on Class Methods"@,
            };
            &&& this.statement_texts(true) == Err::<Seq<Seq<char>>, ErrorModel>(
                error,
            )
            &&& this.async_class_texts() == Err::<
                (Seq<char>, Seq<Seq<char>>),
                ErrorModel,
            >(error)
        }),
{
}

/// The function that takes the parameters gets its receiver first, where there is one, under the
/// receiver's pattern and with its whole type, and then each parameter under its own pattern and
/// with its own type. Each argument is put at the place of its pattern.
pub proof fn law_argument_texts(parameters: ParametersModel)
    ensures
        ({
            let first: int = if parameters.this is Some {
                1
            } else {
                0
            };
            &&& parameters.args().len() == first + parameters.parameters.len()
            &&& parameters.this matches Some((this, _)) ==> {
                let whole = match this.kind {
                    KindModel::Ref(lifetime, mutability) => (TypeModel::Reference {
                        lifetime,
                        mutability,
                        elem: Box::new(this.ty),
                    }).text(),
                    KindModel::Owned => this.ty.text(),
                };
                &&& parameters.args()[0].text == this.pat.text() + ": "@ + whole
                &&& parameters.args()[0].span == (match this.pat {
                    PatModel::Ident { span, .. } => span,
                    PatModel::Other { span, .. } => span,
                })
            }
            &&& forall|i: int|
                0 <= i < parameters.parameters.len() ==> {
                    let (pat, ty) = match #[trigger] parameters.parameters[i] {
                        ParameterModel::Regular { pat, ty, .. } => (pat, ty),
                        ParameterModel::VarArgs { pat, ty, .. } => (pat, ty),
                        ParameterModel::Context(pat, ty) => (pat, ty),
                        ParameterModel::Arguments(pat, ty) => (pat, ty),
                    };
                    &&& parameters.args()[first + i].text == pat.text() + ": "@ + ty.text()
                    &&& parameters.args()[first + i].span == (match pat {
                        PatModel::Ident { span, .. } => span,
                        PatModel::Other { span, .. } => span,
                    })
                }
        }),
{
}

} // verus!
