//! The smallest pieces of the source text: blanks, words, numbers, names.
//!
//! Every piece is read from a position in the text and says where it ends;
//! a piece that is not there says so and reads nothing.

use vstd::prelude::*;

verus! {

/// Whether a character is a blank: a space or a tab.
pub open spec fn is_blank(c: char) -> bool {
    c == ' ' || c == '\t'
}

/// The lower-case form of an ASCII capital; any other character as it is.
pub open spec fn lower(c: char) -> char {
    if 'A' <= c && c <= 'Z' {
        ((c as u8) + 32) as char
    } else {
        c
    }
}

/// The value of a character as a digit in the given radix, which is one of
/// 2, 10 and 16; the letters of a hexadecimal digit may be of either case.
pub open spec fn digit_of(c: char, radix: int) -> Option<int> {
    let value: int = if '0' <= c && c <= '9' {
        c as int - 48
    } else if 'a' <= c && c <= 'f' {
        c as int - 87
    } else if 'A' <= c && c <= 'F' {
        c as int - 55
    } else {
        16
    };
    if value < radix {
        Some(value)
    } else {
        None
    }
}

/// Whether a character is a letter: whether it has the Unicode property
/// Alphabetic. The tables of Unicode are not written out here; this name
/// stands for what `char::is_alphabetic` answers.
pub uninterp spec fn alphabetic(c: char) -> bool;

/// Whether a character is a letter or a digit of any script. This name
/// stands for what `char::is_alphanumeric` answers.
pub uninterp spec fn alphanumeric(c: char) -> bool;

/// Calls `char::is_alphabetic`. Taken on trust: the answer depends on the
/// character alone, so that it can go by the name `alphabetic`.
#[verifier::external_body]
pub(crate) fn is_alphabetic(c: char) -> (r: bool)
    ensures
        r == alphabetic(c),
{
    c.is_alphabetic()
}

/// Calls `char::is_alphanumeric`. Taken on trust: the answer depends on the
/// character alone, so that it can go by the name `alphanumeric`.
#[verifier::external_body]
pub(crate) fn is_alphanumeric(c: char) -> (r: bool)
    ensures
        r == alphanumeric(c),
{
    c.is_alphanumeric()
}

/// Whether a character may stand inside a name: a letter, a digit or an
/// underscore.
pub open spec fn is_name_char(c: char) -> bool {
    alphanumeric(c) || c == '_'
}

/// Where the blanks that begin at `pos` end.
pub open spec fn blanks_end(text: Seq<char>, pos: int) -> int
    decreases text.len() - pos,
{
    if 0 <= pos < text.len() && is_blank(text[pos]) {
        blanks_end(text, pos + 1)
    } else {
        pos
    }
}

/// At least one blank: where the blanks end.
pub open spec fn blanks1(text: Seq<char>, pos: int) -> Option<int> {
    if blanks_end(text, pos) > pos {
        Some(blanks_end(text, pos))
    } else {
        None
    }
}

/// The given word, letter for letter: where it ends.
pub open spec fn word(text: Seq<char>, pos: int, w: Seq<char>) -> Option<int> {
    if 0 <= pos && pos + w.len() <= text.len() && text.subrange(pos, pos + w.len()) == w {
        Some(pos + w.len())
    } else {
        None
    }
}

/// The given word, which is written in lower case, in letters of either
/// case: where it ends.
pub open spec fn keyword(text: Seq<char>, pos: int, w: Seq<char>) -> Option<int> {
    if 0 <= pos && pos + w.len() <= text.len() && (forall|i: int|
        0 <= i < w.len() ==> lower(#[trigger] text[pos + i]) == w[i]) {
        Some(pos + w.len())
    } else {
        None
    }
}

/// Where the digits of the given radix that begin at `pos` end.
pub open spec fn digits_end(text: Seq<char>, pos: int, radix: int) -> int
    decreases text.len() - pos,
{
    if 0 <= pos < text.len() && digit_of(text[pos], radix) is Some {
        digits_end(text, pos + 1, radix)
    } else {
        pos
    }
}

/// The number that the digits from `from` up to `to` denote in the given
/// radix.
pub open spec fn digits_value(text: Seq<char>, from: int, to: int, radix: int) -> int
    decreases to - from,
{
    if to <= from {
        0
    } else {
        digits_value(text, from, to - 1, radix) * radix + match digit_of(text[to - 1], radix) {
            Some(d) => d,
            None => 0,
        }
    }
}

/// At least one digit of the given radix, denoting a number that is at most
/// `max`: the number and where it ends.
pub open spec fn digits(text: Seq<char>, pos: int, radix: int, max: int) -> Option<(int, int)> {
    let end = digits_end(text, pos, radix);
    if end > pos && digits_value(text, pos, end, radix) <= max {
        Some((digits_value(text, pos, end, radix), end))
    } else {
        None
    }
}

/// A hexadecimal number after `0x`.
pub open spec fn hex_number(text: Seq<char>, pos: int, max: int) -> Option<(int, int)> {
    match word(text, pos, "0x"@) {
        Some(p) => digits(text, p, 16, max),
        None => None,
    }
}

/// A binary number after `0b`.
pub open spec fn bin_number(text: Seq<char>, pos: int, max: int) -> Option<(int, int)> {
    match word(text, pos, "0b"@) {
        Some(p) => digits(text, p, 2, max),
        None => None,
    }
}

/// A decimal number.
pub open spec fn dec_number(text: Seq<char>, pos: int, max: int) -> Option<(int, int)> {
    digits(text, pos, 10, max)
}

/// A number that is at most `max`: hexadecimal, or else binary, or else
/// decimal. A form that is not there, or whose number is above `max`, gives
/// way to the next one.
pub open spec fn number(text: Seq<char>, pos: int, max: int) -> Option<(int, int)> {
    if hex_number(text, pos, max) is Some {
        hex_number(text, pos, max)
    } else if bin_number(text, pos, max) is Some {
        bin_number(text, pos, max)
    } else {
        dec_number(text, pos, max)
    }
}

/// Of each character of a text, whether it is a letter.
pub open spec fn letters_of(text: Seq<char>) -> Seq<bool> {
    Seq::new(text.len(), |i: int| alphabetic(text[i]))
}

/// Of each character of a text, whether it may stand inside a name.
pub open spec fn name_chars_of(text: Seq<char>) -> Seq<bool> {
    Seq::new(text.len(), |i: int| is_name_char(text[i]))
}

/// Where the run of marked places that begins at `pos` ends.
pub open spec fn run_end(marked: Seq<bool>, pos: int) -> int
    decreases marked.len() - pos,
{
    if 0 <= pos < marked.len() && marked[pos] {
        run_end(marked, pos + 1)
    } else {
        pos
    }
}

/// A name among characters of which only this is known: which of them are
/// letters, and which may stand inside a name. The name begins at a letter
/// and goes on as far as the characters after it may stand inside a name.
/// Where it ends.
pub open spec fn name_among(letters: Seq<bool>, inner: Seq<bool>, pos: int) -> Option<int> {
    if 0 <= pos < letters.len() && letters[pos] {
        Some(run_end(inner, pos + 1))
    } else {
        None
    }
}

/// A name: a letter, then letters, digits and underscores. Where it ends.
pub open spec fn name(text: Seq<char>, pos: int) -> Option<int> {
    name_among(letters_of(text), name_chars_of(text), pos)
}

/// A register: `v` in either case and one hexadecimal digit. The register's
/// number and where it ends.
pub open spec fn register(text: Seq<char>, pos: int) -> Option<(u8, int)> {
    if 0 <= pos && pos + 1 < text.len() && lower(text[pos]) == 'v' && digit_of(text[pos + 1], 16)
        is Some {
        Some((digit_of(text[pos + 1], 16)->0 as u8, pos + 2))
    } else {
        None
    }
}

/// What stands between two operands: a comma, with blanks before and after
/// it or not. Where it ends.
pub open spec fn separator(text: Seq<char>, pos: int) -> Option<int> {
    let comma = blanks_end(text, pos);
    if 0 <= comma < text.len() && text[comma] == ',' {
        Some(blanks_end(text, comma + 1))
    } else {
        None
    }
}

/// The end of a line: a line feed, or a carriage return and a line feed.
pub open spec fn line_ending(text: Seq<char>, pos: int) -> Option<int> {
    if 0 <= pos < text.len() && text[pos] == '\n' {
        Some(pos + 1)
    } else if 0 <= pos && pos + 1 < text.len() && text[pos] == '\r' && text[pos + 1] == '\n' {
        Some(pos + 2)
    } else {
        None
    }
}

/// Where the characters that begin at `pos` and are neither a carriage
/// return nor a line feed end.
pub open spec fn rest_of_line(text: Seq<char>, pos: int) -> int
    decreases text.len() - pos,
{
    if 0 <= pos < text.len() && text[pos] != '\r' && text[pos] != '\n' {
        rest_of_line(text, pos + 1)
    } else {
        pos
    }
}

/// A comment: `#` and what follows up to the end of the line, which is not
/// part of it. A carriage return that no line feed follows ends no line, and
/// there is no comment before it. Where the comment ends.
pub open spec fn comment(text: Seq<char>, pos: int) -> Option<int> {
    if 0 <= pos < text.len() && text[pos] == '#' {
        let end = rest_of_line(text, pos + 1);
        if end < text.len() && text[end] == '\r' && line_ending(text, end) is None {
            None
        } else {
            Some(end)
        }
    } else {
        None
    }
}

/// A number that was read is not negative.
pub proof fn lemma_number_not_negative(text: Seq<char>, pos: int, max: int)
    ensures
        number(text, pos, max) matches Some((value, _)) ==> 0 <= value <= max,
{
    reveal_strlit("0x");
    reveal_strlit("0b");
    lemma_digits_value(text, pos, digits_end(text, pos, 10), 10);
    lemma_digits_value(text, pos + 2, digits_end(text, pos + 2, 16), 16);
    lemma_digits_value(text, pos + 2, digits_end(text, pos + 2, 2), 2);
}

/// What digits denote is not negative.
pub proof fn lemma_digits_value(text: Seq<char>, from: int, to: int, radix: int)
    requires
        radix > 0,
    ensures
        digits_value(text, from, to, radix) >= 0,
    decreases to - from,
{
    if to > from {
        lemma_digits_value(text, from, to - 1, radix);
        let v = digits_value(text, from, to - 1, radix);
        assert(v * radix >= 0) by (nonlinear_arith)
            requires
                v >= 0,
                radix > 0,
        ;
    }
}

} // verus!
