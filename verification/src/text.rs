//! Texts: optional strings, and numbers written in decimal.

use vstd::prelude::*;

verus! {

/// The text of an optional string.
pub open spec fn text_of(s: Option<String>) -> Option<Seq<char>> {
    match s {
        Some(s) => Some(s@),
        None => None,
    }
}

/// The character for a decimal digit.
pub open spec fn digit_char(digit: int) -> char {
    if digit == 0 {
        '0'
    } else if digit == 1 {
        '1'
    } else if digit == 2 {
        '2'
    } else if digit == 3 {
        '3'
    } else if digit == 4 {
        '4'
    } else if digit == 5 {
        '5'
    } else if digit == 6 {
        '6'
    } else if digit == 7 {
        '7'
    } else if digit == 8 {
        '8'
    } else {
        '9'
    }
}

/// A natural number in decimal, without leading zeros.
pub open spec fn decimal(n: nat) -> Seq<char>
    decreases n,
{
    if n < 10 {
        seq![digit_char(n as int)]
    } else {
        decimal(n / 10).push(digit_char((n % 10) as int))
    }
}

/// `text`, with `fill` put in front of it until it is `width` characters
/// long.
pub open spec fn padded(text: Seq<char>, width: nat, fill: char) -> Seq<char> {
    if text.len() >= width {
        text
    } else {
        Seq::new((width - text.len()) as nat, |i: int| fill) + text
    }
}

/// The text of one decimal digit.
fn digit_text(digit: u64) -> (text: &'static str)
    requires
        digit < 10,
    ensures
        text@ == seq![digit_char(digit as int)],
{
    proof {
        reveal_strlit("0");
        reveal_strlit("1");
        reveal_strlit("2");
        reveal_strlit("3");
        reveal_strlit("4");
        reveal_strlit("5");
        reveal_strlit("6");
        reveal_strlit("7");
        reveal_strlit("8");
        reveal_strlit("9");
    }
    let text = if digit == 0 {
        "0"
    } else if digit == 1 {
        "1"
    } else if digit == 2 {
        "2"
    } else if digit == 3 {
        "3"
    } else if digit == 4 {
        "4"
    } else if digit == 5 {
        "5"
    } else if digit == 6 {
        "6"
    } else if digit == 7 {
        "7"
    } else if digit == 8 {
        "8"
    } else {
        "9"
    };
    assert(text@ =~= seq![digit_char(digit as int)]);
    text
}

/// Appends a number in decimal.
pub fn push_decimal(text: &mut String, n: u64)
    ensures
        final(text)@ == old(text)@ + decimal(n as nat),
    decreases n,
{
    if n >= 10 {
        push_decimal(text, n / 10);
    }
    text.append(digit_text(n % 10));
    assert(text@ =~= old(text)@ + decimal(n as nat));
}

/// Appends a number in decimal, in at least two columns, filled up with
/// `fill`, which is given as a text of one character.
fn push_filled(text: &mut String, n: u64, fill: &str)
    requires
        fill@.len() == 1,
    ensures
        final(text)@ == old(text)@ + padded(decimal(n as nat), 2, fill@[0]),
{
    if n < 10 {
        text.append(fill);
    }
    push_decimal(text, n);
    proof {
        if n < 10 {
            assert(Seq::new(1, |i: int| fill@[0]) =~= fill@);
            assert(padded(decimal(n as nat), 2, fill@[0]) =~= fill@ + decimal(n as nat));
        } else {
            lemma_decimal_len(n as nat);
        }
        assert(text@ =~= old(text)@ + padded(decimal(n as nat), 2, fill@[0]));
    }
}

/// Appends a number in decimal, in at least two columns, with a space in
/// front of a single digit.
pub fn push_two_columns(text: &mut String, n: u64)
    ensures
        final(text)@ == old(text)@ + padded(decimal(n as nat), 2, ' '),
{
    proof {
        reveal_strlit(" ");
    }
    push_filled(text, n, " ");
}

/// Appends a number in decimal, in at least two digits, with a zero in
/// front of a single digit.
pub fn push_two_digits(text: &mut String, n: u64)
    ensures
        final(text)@ == old(text)@ + padded(decimal(n as nat), 2, '0'),
{
    proof {
        reveal_strlit("0");
    }
    push_filled(text, n, "0");
}

/// A number of two or more digits takes two or more columns.
proof fn lemma_decimal_len(n: nat)
    ensures
        decimal(n).len() >= 1,
        n >= 10 ==> decimal(n).len() >= 2,
    decreases n,
{
    if n >= 10 {
        lemma_decimal_len(n / 10);
    }
}

/// A number in decimal.
pub fn decimal_string(n: u64) -> (text: String)
    ensures
        text@ == decimal(n as nat),
{
    let mut text = String::new();
    push_decimal(&mut text, n);
    assert(text@ =~= decimal(n as nat));
    text
}

} // verus!
