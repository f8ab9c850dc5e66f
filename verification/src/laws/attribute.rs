//! What holds of reading `#[ion(...)]` attributes: what follows from the first tokens of a list, and
//! which attributes are read.
use vstd::prelude::*;

use crate::attribute::{attributes_read, entries_from, entry_at, list_entries};
use crate::attribute::starts_expression;
use crate::attribute::{AnswerModel, EntriesModel, EntryModel};
use crate::syntax::{tokens_text, ArgModel, AttributeModel, ErrorModel, MetaModel};
use crate::syntax::{PatTypeModel, Place, ReceiverModel, TokenModel};

verus! {

proof fn lemma_shift(
    tokens: Seq<TokenModel>,
    close: Place,
    answers: Seq<AnswerModel>,
    n: int,
    at: int,
)
    requires
        0 <= n <= tokens.len(),
        0 <= at,
        answers.len() == tokens.len(),
    ensures
        entries_from(tokens, close, answers, n + at) == entries_from(
            tokens.skip(n),
            close,
            answers.skip(n),
            at,
        ),
    decreases tokens.len() - at,
{
    let rest = tokens.skip(n);
    let left = answers.skip(n);
    if n + at < tokens.len() {
        let here = entry_at(tokens, close, answers, n + at);
        let there = entry_at(rest, close, left, at);
        assert(rest[at] == tokens[n + at]);
        if n + at + 1 < tokens.len() {
            assert(rest[at + 1] == tokens[n + at + 1]);
        }
        if n + at + 2 < tokens.len() {
            assert(rest[at + 2] == tokens[n + at + 2]);
            assert(left[at + 2] == answers[n + at + 2]);
            if let Ok(count) = answers[n + at + 2] {
                if count < tokens.len() - (n + at + 2) {
                    let end = tokens.len() - count;
                    assert(rest.subrange(at + 2, end - n) =~= tokens.subrange(n + at + 2, end));
                }
            }
        }
        if let Ok((_, next)) = here {
            if next < tokens.len() {
                assert(rest[next - n] == tokens[next]);
                lemma_shift(tokens, close, answers, n, next + 1 - n);
            }
        }
    }
}

/// What is read when an entry has been read and the given tokens are left: nothing more where there
/// are none, what follows a comma, and an error where anything else follows.
pub open spec fn continued(
    entry: EntryModel,
    rest: Seq<TokenModel>,
    close: Place,
    answers: Seq<AnswerModel>,
) -> EntriesModel {
    if rest.len() == 0 {
        Ok(seq![entry])
    } else if rest[0].text != ","@ {
        Err(ErrorModel { span: rest[0].span, message: "expected `,`"@ })
    } else {
        match list_entries(rest.skip(1), close, answers.skip(1)) {
            Ok(entries) => Ok(seq![entry] + entries),
            Err(e) => Err(e),
        }
    }
}

/// No tokens hold no entries.
pub proof fn law_no_tokens(close: Place, answers: Seq<AnswerModel>)
    ensures
        list_entries(Seq::empty(), close, answers) == Ok::<Seq<EntryModel>, ErrorModel>(
            Seq::empty(),
        ),
{
}

/// Each of the words `this`, `varargs` and `strict` is an entry, and what follows it is read as if
/// it stood alone.
pub proof fn law_word(
    joint: bool,
    span: Place,
    rest: Seq<TokenModel>,
    close: Place,
    answers: Seq<AnswerModel>,
)
    requires
        answers.len() == rest.len() + 1,
    ensures
        ({
            let read = |text: Seq<char>|
                list_entries(seq![TokenModel { text, joint, span }] + rest, close, answers);
            let left = answers.skip(1);
            &&& read("this"@) == continued(EntryModel::This, rest, close, left)
            &&& read("varargs"@) == continued(EntryModel::VarArgs, rest, close, left)
            &&& read("strict"@) == continued(EntryModel::Strict, rest, close, left)
        }),
{
    reveal_strlit("this");
    reveal_strlit("varargs");
    reveal_strlit("strict");
    reveal_strlit("convert");
    assert("this"@.len() == 4 && "varargs"@.len() == 7 && "strict"@.len() == 6 && "convert"@.len()
        == 7);
    assert("varargs"@[0] != "convert"@[0]);
    lemma_word("this"@, joint, span, rest, close, answers);
    lemma_word("varargs"@, joint, span, rest, close, answers);
    lemma_word("strict"@, joint, span, rest, close, answers);
}

proof fn lemma_word(
    text: Seq<char>,
    joint: bool,
    span: Place,
    rest: Seq<TokenModel>,
    close: Place,
    answers: Seq<AnswerModel>,
)
    requires
        answers.len() == rest.len() + 1,
    ensures
        ({
            let tokens = seq![TokenModel { text, joint, span }] + rest;
            entry_at(tokens, close, answers, 0) matches Ok((entry, next)) ==> next == 1
                ==> list_entries(tokens, close, answers) == continued(
                entry,
                rest,
                close,
                answers.skip(1),
            )
        }),
{
    let tokens = seq![TokenModel { text, joint, span }] + rest;
    if rest.len() > 0 {
        assert(tokens[1] == rest[0]);
        lemma_shift(tokens, close, answers, 2, 0);
        assert(tokens.skip(2) =~= rest.skip(1));
        assert(answers.skip(2) =~= answers.skip(1).skip(1));
    }
}

/// `convert =` and an expression is an entry with the text of the expression, where the answer for
/// it is that what follows it is left. An error in it is the error of the list.
pub proof fn law_convert(
    convert: TokenModel,
    equals: TokenModel,
    expression: Seq<TokenModel>,
    rest: Seq<TokenModel>,
    close: Place,
    answers: Seq<AnswerModel>,
)
    requires
        convert.text == "convert"@,
        equals.text == "="@,
        expression.len() > 0,
        answers.len() == 2 + expression.len() + rest.len(),
    ensures
        ({
            let tokens = seq![convert, equals] + expression + rest;
            &&& answers[2] == Ok::<nat, ErrorModel>(rest.len()) ==> list_entries(
                tokens,
                close,
                answers,
            ) == continued(
                EntryModel::Convert(tokens_text(expression)),
                rest,
                close,
                answers.skip(2 + expression.len() as int),
            )
            &&& answers[2] matches Err(e) ==> list_entries(tokens, close, answers) == Err::<
                Seq<EntryModel>,
                ErrorModel,
            >(e)
            &&& answers[2] matches Ok(left) ==> left >= expression.len() + rest.len()
                ==> list_entries(tokens, close, answers) == Err::<Seq<EntryModel>, ErrorModel>(
                ErrorModel { span: expression[0].span, message: "expected an expression"@ },
            )
        }),
{
    reveal_strlit("this");
    reveal_strlit("varargs");
    reveal_strlit("convert");
    assert("varargs"@[0] != "convert"@[0]);
    assert("this"@.len() != "convert"@.len());
    let tokens = seq![convert, equals] + expression + rest;
    let end = 2 + expression.len() as int;
    assert(tokens[0] == convert && tokens[1] == equals && tokens[2] == expression[0]);
    if answers[2] == Ok::<nat, ErrorModel>(rest.len()) {
        assert(tokens.subrange(2, end) =~= expression);
        if rest.len() > 0 {
            assert(tokens[end] == rest[0]);
            lemma_shift(tokens, close, answers, end + 1, 0);
            assert(tokens.skip(end + 1) =~= rest.skip(1));
            assert(answers.skip(end + 1) =~= answers.skip(end).skip(1));
        }
    }
}

/// `convert` needs `=` and an expression: without the one, the token in its place is at fault, or
/// the closing parenthesis where there is none; without the other, the closing parenthesis is.
pub proof fn law_convert_incomplete(
    convert: TokenModel,
    next: TokenModel,
    rest: Seq<TokenModel>,
    close: Place,
    answers: Seq<AnswerModel>,
)
    requires
        convert.text == "convert"@,
    ensures
        ({
            let refused = |span: Place, message: Seq<char>|
                Err::<Seq<EntryModel>, ErrorModel>(ErrorModel { span, message });
            &&& list_entries(seq![convert], close, answers) == refused(close, "expected `=`"@)
            &&& next.text != "="@ ==> list_entries(seq![convert, next] + rest, close, answers)
                == refused(next.span, "expected `=`"@)
            &&& next.text == "="@ ==> list_entries(seq![convert, next], close, answers) == refused(
                close,
                "unexpected end of input, expected an expression"@,
            )
        }),
{
    reveal_strlit("this");
    reveal_strlit("varargs");
    reveal_strlit("convert");
    assert("varargs"@[0] != "convert"@[0]);
    assert("this"@.len() != "convert"@.len());
    let tokens = seq![convert, next] + rest;
    assert(tokens[0] == convert && tokens[1] == next);
    assert(seq![convert, next][0] == convert && seq![convert, next][1] == next);
}

/// Any other token in the place of an entry is at fault.
pub proof fn law_unknown_entry(
    token: TokenModel,
    rest: Seq<TokenModel>,
    close: Place,
    answers: Seq<AnswerModel>,
)
    requires
        token.text != "this"@,
        token.text != "varargs"@,
        token.text != "convert"@,
        token.text != "strict"@,
    ensures
        list_entries(seq![token] + rest, close, answers) == Err::<Seq<EntryModel>, ErrorModel>(
            ErrorModel {
                span: token.span,
                message: "expected one of: `this`, `varargs`, `convert`, `strict`"@,
            },
        ),
{
    assert((seq![token] + rest)[0] == token);
}

/// An attribute without parentheses is refused: at its path, or at its equals sign.
pub proof fn law_attribute_without_list(
    path: Seq<char>,
    path_span: Place,
    equals: Place,
    entries: EntriesModel,
)
    ensures
        (AttributeModel { path, path_span, meta: MetaModel::Path }).reads(entries) <==> entries
            == Err::<Seq<EntryModel>, ErrorModel>(
            ErrorModel {
                span: path_span,
                message: "expected attribute arguments in parentheses: #["@ + path + "(...)]"@,
            },
        ),
        (AttributeModel { path, path_span, meta: MetaModel::NameValue(equals) }).reads(entries)
            <==> entries == Err::<Seq<EntryModel>, ErrorModel>(
            ErrorModel {
                span: equals,
                message: "expected parentheses: #["@ + path + "(...)]"@,
            },
        ),
{
}

/// An attribute with parentheses is read as its tokens are, whatever its path and its place are, and
/// in no other way.
pub proof fn law_attribute_with_list(
    path: Seq<char>,
    path_span: Place,
    tokens: Seq<TokenModel>,
    close: Place,
    answers: Seq<AnswerModel>,
    entries: EntriesModel,
)
    ensures
        (AttributeModel { path, path_span, meta: MetaModel::List { tokens, close } }).reads(
            list_entries(tokens, close, answers),
        ),
        (AttributeModel { path, path_span, meta: MetaModel::List { tokens, close } }).reads(entries)
            ==> exists|a: Seq<AnswerModel>| entries == #[trigger] list_entries(tokens, close, a),
{
}

/// Exactly the attributes whose path is `ion` are read, each on its own, in order.
pub proof fn law_attributes_read(attrs: Seq<AttributeModel>, read: Seq<EntriesModel>)
    ensures
        ({
            let ours = attrs.filter(|a: AttributeModel| a.path == "ion"@);
            attributes_read(attrs, read) <==> read.len() == ours.len() && forall|i: int|
                0 <= i < ours.len() ==> (#[trigger] ours[i]).reads(read[i])
        }),
    decreases attrs.len(),
{
    reveal(Seq::filter);
    let is_ours = |a: AttributeModel| a.path == "ion"@;
    let ours = attrs.filter(is_ours);
    if attrs.len() > 0 {
        let before = attrs.drop_last();
        let ours_before = before.filter(is_ours);
        if attrs.last().path == "ion"@ {
            if read.len() > 0 {
                let some = read.drop_last();
                law_attributes_read(before, some);
                let last = ours.len() - 1;
                assert(ours[last] == attrs.last());
                assert(forall|i: int| 0 <= i < last ==> #[trigger] ours[i] == ours_before[i]);
                if read.len() == ours.len() && forall|i: int|
                    0 <= i < ours.len() ==> (#[trigger] ours[i]).reads(read[i]) {
                    assert forall|i: int| 0 <= i < ours_before.len() implies (
                    #[trigger] ours_before[i]).reads(some[i]) by {
                        assert(ours[i].reads(read[i]));
                    }
                    assert(ours[last].reads(read[last]));
                }
                if attributes_read(attrs, read) {
                    assert forall|i: int| 0 <= i < ours.len() implies (#[trigger] ours[i]).reads(
                        read[i],
                    ) by {
                        if i < last {
                            assert(ours_before[i].reads(some[i]));
                        }
                    }
                }
            }
        } else {
            law_attributes_read(before, read);
        }
    }
}

/// The attributes of an argument are those that stand before its pattern; a receiver that is written
/// `self` has none.
pub proof fn law_argument_attributes(
    arg: PatTypeModel,
    recv: ReceiverModel,
    read: Seq<EntriesModel>,
)
    ensures
        ArgModel::Typed(arg).reads(read) <==> attributes_read(arg.attrs, read),
        ArgModel::Receiver(recv).reads(read) <==> read.len() == 0,
{
}

/// The parser is asked for what follows `convert =`, and for nothing else.
pub proof fn law_asked(
    before: Seq<TokenModel>,
    convert: TokenModel,
    equals: TokenModel,
    rest: Seq<TokenModel>,
    tokens: Seq<TokenModel>,
    at: int,
)
    ensures
        convert.text == "convert"@ && equals.text == "="@ && rest.len() > 0 ==> starts_expression(
            before + seq![convert, equals] + rest,
            before.len() as int + 2,
        ),
        starts_expression(tokens, at) ==> 2 <= at < tokens.len() && tokens[at - 2].text
            == "convert"@ && tokens[at - 1].text == "="@,
{
    let all = before + seq![convert, equals] + rest;
    let n = before.len() as int;
    assert(all[n] == convert && all[n + 1] == equals);
}

} // verus!
