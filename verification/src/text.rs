//! Source text: numbers and string literals as they are written in generated code.
use vstd::prelude::*;

verus! {

/// The decimal digit of a number below ten.
pub open spec fn digit(n: nat) -> char {
    if n == 0 {
        '0'
    } else if n == 1 {
        '1'
    } else if n == 2 {
        '2'
    } else if n == 3 {
        '3'
    } else if n == 4 {
        '4'
    } else if n == 5 {
        '5'
    } else if n == 6 {
        '6'
    } else if n == 7 {
        '7'
    } else if n == 8 {
        '8'
    } else {
        '9'
    }
}

/// The decimal digits of a number, without leading zeros.
pub open spec fn decimal_digits(n: nat) -> Seq<char>
    decreases n,
{
    if n < 10 {
        seq![digit(n)]
    } else {
        decimal_digits(n / 10).push(digit(n % 10))
    }
}

/// The text of a `usize` literal, which names its type.
pub open spec fn usize_literal_text(n: nat) -> Seq<char> {
    decimal_digits(n) + "usize"@
}

/// The text of a `bool` literal.
pub open spec fn bool_literal_text(b: bool) -> Seq<char> {
    if b {
        "true"@
    } else {
        "false"@
    }
}

/// The value of a hexadecimal digit.
pub open spec fn hex_digit(c: char) -> Option<nat> {
    if '0' <= c && c <= '9' {
        Some((c as int - '0' as int) as nat)
    } else if 'a' <= c && c <= 'f' {
        Some((c as int - 'a' as int + 10) as nat)
    } else if 'A' <= c && c <= 'F' {
        Some((c as int - 'A' as int + 10) as nat)
    } else {
        None
    }
}

/// The number that hexadecimal digits stand for.
pub open spec fn hex_value(s: Seq<char>) -> Option<nat>
    decreases s.len(),
{
    if s.len() == 0 {
        Some(0)
    } else {
        match (hex_value(s.drop_last()), hex_digit(s.last())) {
            (Some(before), Some(digit)) => Some(16 * before + digit),
            _ => None,
        }
    }
}

/// The character with a number, where there is one.
pub open spec fn char_of(n: nat) -> Option<char> {
    if n < 0xD800 || 0xE000 <= n <= 0x10FFFF {
        Some(n as char)
    } else {
        None
    }
}

/// The character that the escape of one letter stands for, without the backslash.
pub open spec fn simple_escape(c: char) -> Option<char> {
    if c == 'n' {
        Some('\n')
    } else if c == 'r' {
        Some('\r')
    } else if c == 't' {
        Some('\t')
    } else if c == '0' {
        Some('\0')
    } else if c == '\\' || c == '\'' || c == '"' {
        Some(c)
    } else {
        None
    }
}

/// The first character that stands between the quotes of a string literal, and how much of the
/// text it takes up: it stands for itself, or it is escaped by a letter, by `\x` and two digits, or
/// by `\u` and up to six digits in braces.
pub open spec fn first_char(s: Seq<char>) -> Option<(char, nat)> {
    if s.len() == 0 || s[0] == '"' || s[0] == '\r' {
        None
    } else if s[0] != '\\' {
        Some((s[0], 1))
    } else if s.len() < 2 {
        None
    } else if s[1] == 'x' {
        if s.len() < 4 {
            None
        } else {
            match hex_value(s.subrange(2, 4)) {
                Some(n) => if n < 0x80 {
                    Some((n as char, 4))
                } else {
                    None
                },
                None => None,
            }
        }
    } else if s[1] == 'u' {
        let end = s.index_of_first('}');
        if end is None || !(4 <= end.unwrap() <= 9) || s[2] != '{' {
            None
        } else {
            match hex_value(s.subrange(3, end.unwrap())) {
                Some(n) => match char_of(n) {
                    Some(c) => Some((c, (end.unwrap() + 1) as nat)),
                    None => None,
                },
                None => None,
            }
        }
    } else {
        match simple_escape(s[1]) {
            Some(c) => Some((c, 2)),
            None => None,
        }
    }
}

/// What stands between the quotes of a string literal.
pub open spec fn unescaped(s: Seq<char>) -> Option<Seq<char>>
    decreases s.len(),
{
    if s.len() == 0 {
        Some(Seq::empty())
    } else {
        match first_char(s) {
            Some((c, n)) => if 1 <= n <= s.len() {
                match unescaped(s.skip(n as int)) {
                    Some(rest) => Some(seq![c] + rest),
                    None => None,
                }
            } else {
                None
            },
            None => None,
        }
    }
}

/// The text is a string literal with the given value.
pub open spec fn is_literal_of(text: Seq<char>, value: Seq<char>) -> bool {
    &&& text.len() >= 2
    &&& text[0] == '"'
    &&& text.last() == '"'
    &&& unescaped(text.subrange(1, text.len() - 1)) == Some(value)
}

/// A character as it can be written between quotes.
pub open spec fn escaped_char(c: char) -> Seq<char> {
    if c == '"' {
        seq!['\\', '"']
    } else if c == '\\' {
        seq!['\\', '\\']
    } else if c == '\r' {
        seq!['\\', 'r']
    } else {
        seq![c]
    }
}

/// A string as it can be written between quotes.
pub open spec fn escaped(s: Seq<char>) -> Seq<char>
    decreases s.len(),
{
    if s.len() == 0 {
        Seq::empty()
    } else {
        escaped_char(s[0]) + escaped(s.skip(1))
    }
}

/// A literal of a string.
pub open spec fn a_literal(s: Seq<char>) -> Seq<char> {
    seq!['"'] + escaped(s) + seq!['"']
}

proof fn lemma_unescaped(s: Seq<char>)
    ensures
        unescaped(escaped(s)) == Some(s),
    decreases s.len(),
{
    if s.len() > 0 {
        let rest = s.skip(1);
        let first = escaped_char(s[0]);
        let text = escaped(s);
        lemma_unescaped(rest);
        assert(text == first + escaped(rest));
        assert(text[0] == first[0]);
        assert(first.len() == 2 ==> text[1] == first[1]);
        assert(first_char(text) == Some((s[0], first.len())));
        assert(text.skip(first.len() as int) =~= escaped(rest));
        assert(seq![s[0]] + rest =~= s);
    } else {
        assert(s =~= Seq::empty());
    }
}

/// Every string has a literal.
pub proof fn law_literal(s: Seq<char>)
    ensures
        is_literal_of(a_literal(s), s),
{
    let text = a_literal(s);
    assert(text.subrange(1, text.len() - 1) =~= escaped(s));
    lemma_unescaped(s);
}

fn digit_text(n: usize) -> (r: &'static str)
    requires
        n < 10,
    ensures
        r@ == seq![digit(n as nat)],
{
    proof {
        reveal_strlit("0");
        reveal_strlit("1");
        reveal_strlit("2");
        reveal_strlit("3");
        reveal_strlit("4");
        reveal_strlit("5");
        reveal_strlit("6");
        reveal_strlit("7");
        reveal_strlit("8");
        reveal_strlit("9");
    }
    match n {
        0 => "0",
        1 => "1",
        2 => "2",
        3 => "3",
        4 => "4",
        5 => "5",
        6 => "6",
        7 => "7",
        8 => "8",
        _ => "9",
    }
}

/// Tells whether a string holds the given text.
pub fn text_is(s: &String, text: &str) -> (r: bool)
    ensures
        r == (s@ == text@),
{
    *s == text.to_owned()
}

/// Writes a number in decimal.
pub fn decimal(n: usize) -> (r: String)
    ensures
        r@ == decimal_digits(n as nat),
    decreases n,
{
    if n < 10 {
        digit_text(n).to_owned()
    } else {
        let mut text = decimal(n / 10);
        text.append(digit_text(n % 10));
        text
    }
}

/// Writes a number as a `usize` literal.
pub fn usize_literal(n: usize) -> (r: String)
    ensures
        r@ == usize_literal_text(n as nat),
{
    let mut text = decimal(n);
    text.append("usize");
    text
}

/// Writes a `bool` literal.
pub fn bool_literal(b: bool) -> (r: &'static str)
    ensures
        r@ == bool_literal_text(b),
{
    if b {
        "true"
    } else {
        "false"
    }
}

/// Writes a string literal, with `proc_macro2::Literal::string` and its `to_string`.
///
/// Trusted: the text is a string literal, between quotes, whose value is the string. Inside of a
/// macro the compiler prints it, and outside of one `proc_macro2` does; which characters are
/// escaped, and how, is up to them and is not stated.
#[verifier::external_body]
pub(crate) fn string_literal(s: &str) -> (r: String)
    ensures
        is_literal_of(r@, s@),
{
    proc_macro2::Literal::string(s).to_string()
}

} // verus!
