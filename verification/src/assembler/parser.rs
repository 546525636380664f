//! The parser: source text to lines.

use crate::assembler::ast::Addr;
use crate::assembler::ast::AddrView;
use crate::assembler::ast::Instr;
use crate::assembler::ast::Line;
use crate::assembler::ast::Opcode;
use crate::assembler::ast::VReg;
use crate::assembler::generator::line_views;
use crate::assembler::grammar;
use crate::assembler::grammar::ParseError;
use crate::assembler::text;
use crate::assembler::text::is_alphabetic;
use crate::assembler::text::is_alphanumeric;
use vstd::prelude::*;

verus! {

/// Whether a reading ended where the grammar says.
pub open spec fn ends_as(r: Option<usize>, s: Option<int>) -> bool {
    match s {
        Some(end) => r == Some(end as usize) && 0 <= end <= usize::MAX,
        None => r is None,
    }
}

/// Whether a reading gave what the grammar says and ended where it says.
pub open spec fn reads_as<T>(r: Option<(T, usize)>, s: Option<(T, int)>) -> bool {
    match s {
        Some((value, end)) => r == Some((value, end as usize)) && 0 <= end <= usize::MAX,
        None => r is None,
    }
}

/// Whether a reading gave the number that the grammar says and ended where
/// it says.
pub open spec fn counts_as(r: Option<(u32, usize)>, s: Option<(int, int)>) -> bool {
    match s {
        Some((value, end)) => r == Some((value as u32, end as usize)) && 0 <= end <= usize::MAX
            && 0 <= value <= u32::MAX,
        None => r is None,
    }
}

/// Where the blanks that begin at `pos` end.
pub fn space0(text: &[char], pos: usize) -> (end: usize)
    requires
        pos <= text@.len(),
    ensures
        end == text::blanks_end(text@, pos as int),
        pos <= end <= text@.len(),
{
    let mut i = pos;
    while i < text.len() && (text[i] == ' ' || text[i] == '\t')
        invariant
            pos <= i <= text@.len(),
            text::blanks_end(text@, pos as int) == text::blanks_end(text@, i as int),
        decreases text@.len() - i,
    {
        i += 1;
    }
    i
}

/// At least one blank.
pub fn space1(text: &[char], pos: usize) -> (r: Option<usize>)
    requires
        pos <= text@.len(),
    ensures
        ends_as(r, text::blanks1(text@, pos as int)),
        r matches Some(end) ==> pos < end <= text@.len(),
{
    let end = space0(text, pos);
    if end > pos {
        Some(end)
    } else {
        None
    }
}

/// The given word, letter for letter.
pub fn tag(text: &[char], pos: usize, w: &str) -> (r: Option<usize>)
    requires
        pos <= text@.len(),
    ensures
        ends_as(r, text::word(text@, pos as int, w@)),
        r matches Some(end) ==> end == pos + w@.len() && end <= text@.len(),
{
    let n = w.unicode_len();
    if n > text.len() - pos {
        return None;
    }
    let mut i: usize = 0;
    while i < n
        invariant
            i <= n,
            n == w@.len(),
            pos + n <= text@.len() <= usize::MAX,
            forall|j: int| 0 <= j < i ==> text@[pos + j] == w@[j],
        decreases n - i,
    {
        if text[pos + i] != w.get_char(i) {
            assert(text@.subrange(pos as int, pos + n)[i as int] != w@[i as int]);
            return None;
        }
        i += 1;
    }
    assert(text@.subrange(pos as int, pos + n) =~= w@);
    Some(pos + n)
}

/// The lower-case form of an ASCII capital; any other character as it is.
pub fn to_lower(c: char) -> (r: char)
    ensures
        r == text::lower(c),
{
    if c >= 'A' && c <= 'Z' {
        ((c as u8) + 32) as char
    } else {
        c
    }
}

/// The given word, which is written in lower case, in letters of either
/// case.
pub fn tag_no_case(text: &[char], pos: usize, w: &str) -> (r: Option<usize>)
    requires
        pos <= text@.len(),
    ensures
        ends_as(r, text::keyword(text@, pos as int, w@)),
        r matches Some(end) ==> end == pos + w@.len() && end <= text@.len(),
{
    let n = w.unicode_len();
    if n > text.len() - pos {
        return None;
    }
    let mut i: usize = 0;
    while i < n
        invariant
            i <= n,
            n == w@.len(),
            pos + n <= text@.len() <= usize::MAX,
            forall|j: int| 0 <= j < i ==> text::lower(#[trigger] text@[pos + j]) == w@[j],
        decreases n - i,
    {
        if to_lower(text[pos + i]) != w.get_char(i) {
            return None;
        }
        i += 1;
    }
    Some(pos + n)
}

/// The value of a character as a digit in the given radix.
pub fn digit(c: char, radix: u32) -> (r: Option<u32>)
    requires
        radix == 2 || radix == 10 || radix == 16,
    ensures
        match text::digit_of(c, radix as int) {
            Some(d) => r == Some(d as u32) && 0 <= d < radix,
            None => r is None,
        },
{
    let value: u32 = if c >= '0' && c <= '9' {
        c as u32 - 48
    } else if c >= 'a' && c <= 'f' {
        c as u32 - 87
    } else if c >= 'A' && c <= 'F' {
        c as u32 - 55
    } else {
        16
    };
    if value < radix {
        Some(value)
    } else {
        None
    }
}

/// Digits that denote more than `max` keep doing so when digits are added.
proof fn lemma_digits_grow(value: int, radix: int, d: int, max: int)
    requires
        value > max,
        max >= 0,
        radix >= 2,
        d >= 0,
    ensures
        value * radix + d > max,
{
    assert(value * radix >= value) by (nonlinear_arith)
        requires
            value >= 0,
            radix >= 1,
    ;
}

/// At least one digit of the given radix, denoting a number that is at most
/// `max`.
pub fn digits(text: &[char], pos: usize, radix: u32, max: u32) -> (r: Option<(u32, usize)>)
    requires
        pos <= text@.len(),
        radix == 2 || radix == 10 || radix == 16,
        max <= 0xFFFF,
    ensures
        counts_as(r, text::digits(text@, pos as int, radix as int, max as int)),
        r matches Some((value, end)) ==> pos < end <= text@.len() && value <= max,
{
    let mut i = pos;
    let mut value: u32 = 0;
    let mut fits = true;
    let mut more = true;
    while more
        invariant
            pos <= i <= text@.len(),
            radix == 2 || radix == 10 || radix == 16,
            max <= 0xFFFF,
            text::digits_end(text@, pos as int, radix as int) == text::digits_end(
                text@,
                i as int,
                radix as int,
            ),
            !more ==> text::digits_end(text@, i as int, radix as int) == i,
            fits ==> value == text::digits_value(text@, pos as int, i as int, radix as int)
                && value <= max,
            !fits ==> text::digits_value(text@, pos as int, i as int, radix as int) > max,
        decreases text@.len() - i + if more { 1int } else { 0int },
    {
        if i >= text.len() {
            more = false;
        } else {
            match digit(text[i], radix) {
                None => {
                    more = false;
                },
                Some(d) => {
                    let ghost before = text::digits_value(
                        text@,
                        pos as int,
                        i as int,
                        radix as int,
                    );
                    assert(text::digits_value(text@, pos as int, i + 1, radix as int) == before
                        * radix + d);
                    if fits {
                        let next = value * radix + d;
                        if next > max {
                            fits = false;
                        } else {
                            value = next;
                        }
                    } else {
                        proof {
                            lemma_digits_grow(before, radix as int, d as int, max as int);
                        }
                    }
                    i += 1;
                },
            }
        }
    }
    if i > pos && fits {
        Some((value, i))
    } else {
        None
    }
}

/// A hexadecimal number of sixteen bits after `0x`.
pub fn hex_u16(text: &[char], pos: usize) -> (r: Option<(u32, usize)>)
    requires
        pos <= text@.len(),
    ensures
        counts_as(r, text::hex_number(text@, pos as int, 0xFFFF)),
        r matches Some((value, end)) ==> pos < end <= text@.len() && value <= 0xFFFF,
{
    hex(text, pos, 0xFFFF)
}

/// A decimal number of sixteen bits.
pub fn dec_u16(text: &[char], pos: usize) -> (r: Option<(u32, usize)>)
    requires
        pos <= text@.len(),
    ensures
        counts_as(r, text::dec_number(text@, pos as int, 0xFFFF)),
        r matches Some((value, end)) ==> pos < end <= text@.len() && value <= 0xFFFF,
{
    digits(text, pos, 10, 0xFFFF)
}

/// A binary number of sixteen bits after `0b`.
pub fn bin_u16(text: &[char], pos: usize) -> (r: Option<(u32, usize)>)
    requires
        pos <= text@.len(),
    ensures
        counts_as(r, text::bin_number(text@, pos as int, 0xFFFF)),
        r matches Some((value, end)) ==> pos < end <= text@.len() && value <= 0xFFFF,
{
    bin(text, pos, 0xFFFF)
}

/// A hexadecimal number of eight bits after `0x`.
pub fn hex_u8(text: &[char], pos: usize) -> (r: Option<(u32, usize)>)
    requires
        pos <= text@.len(),
    ensures
        counts_as(r, text::hex_number(text@, pos as int, 0xFF)),
        r matches Some((value, end)) ==> pos < end <= text@.len() && value <= 0xFF,
{
    hex(text, pos, 0xFF)
}

/// A decimal number of eight bits.
pub fn dec_u8(text: &[char], pos: usize) -> (r: Option<(u32, usize)>)
    requires
        pos <= text@.len(),
    ensures
        counts_as(r, text::dec_number(text@, pos as int, 0xFF)),
        r matches Some((value, end)) ==> pos < end <= text@.len() && value <= 0xFF,
{
    digits(text, pos, 10, 0xFF)
}

/// A binary number of eight bits after `0b`.
pub fn bin_u8(text: &[char], pos: usize) -> (r: Option<(u32, usize)>)
    requires
        pos <= text@.len(),
    ensures
        counts_as(r, text::bin_number(text@, pos as int, 0xFF)),
        r matches Some((value, end)) ==> pos < end <= text@.len() && value <= 0xFF,
{
    bin(text, pos, 0xFF)
}

fn hex(text: &[char], pos: usize, max: u32) -> (r: Option<(u32, usize)>)
    requires
        pos <= text@.len(),
        max <= 0xFFFF,
    ensures
        counts_as(r, text::hex_number(text@, pos as int, max as int)),
        r matches Some((value, end)) ==> pos < end <= text@.len() && value <= max,
{
    match tag(text, pos, "0x") {
        Some(p) => digits(text, p, 16, max),
        None => None,
    }
}

fn bin(text: &[char], pos: usize, max: u32) -> (r: Option<(u32, usize)>)
    requires
        pos <= text@.len(),
        max <= 0xFFFF,
    ensures
        counts_as(r, text::bin_number(text@, pos as int, max as int)),
        r matches Some((value, end)) ==> pos < end <= text@.len() && value <= max,
{
    match tag(text, pos, "0b") {
        Some(p) => digits(text, p, 2, max),
        None => None,
    }
}

/// A number that is at most `max`: hexadecimal, or else binary, or else
/// decimal.
pub fn number(text: &[char], pos: usize, max: u32) -> (r: Option<(u32, usize)>)
    requires
        pos <= text@.len(),
        max <= 0xFFFF,
    ensures
        counts_as(r, text::number(text@, pos as int, max as int)),
        r matches Some((value, end)) ==> pos < end <= text@.len() && value <= max,
{
    match hex(text, pos, max) {
        Some(found) => Some(found),
        None => match bin(text, pos, max) {
            Some(found) => Some(found),
            None => digits(text, pos, 10, max),
        },
    }
}

/// Of each character of a text, whether it is a letter, and whether it may
/// stand inside a name: whether it is a letter, a digit or an underscore.
pub fn classify(text: &[char]) -> (r: (Vec<bool>, Vec<bool>))
    ensures
        r.0@ == text::letters_of(text@),
        r.1@ == text::name_chars_of(text@),
{
    let mut letters: Vec<bool> = Vec::new();
    let mut inner: Vec<bool> = Vec::new();
    let mut i: usize = 0;
    while i < text.len()
        invariant
            i <= text@.len(),
            letters@ == text::letters_of(text@).take(i as int),
            inner@ == text::name_chars_of(text@).take(i as int),
        decreases text@.len() - i,
    {
        let c = text[i];
        letters.push(is_alphabetic(c));
        inner.push(is_alphanumeric(c) || c == '_');
        i += 1;
        proof {
            assert(letters@ =~= text::letters_of(text@).take(i as int));
            assert(inner@ =~= text::name_chars_of(text@).take(i as int));
        }
    }
    proof {
        assert(text::letters_of(text@).take(i as int) =~= text::letters_of(text@));
        assert(text::name_chars_of(text@).take(i as int) =~= text::name_chars_of(text@));
    }
    (letters, inner)
}

/// A name among characters of which only this is known: which of them are
/// letters (`letters`), and which may stand inside a name (`inner`). The
/// name begins at a letter and goes on as far as the characters after it may
/// stand inside a name.
pub fn name_among(letters: &[bool], inner: &[bool], pos: usize) -> (r: Option<usize>)
    ensures
        ends_as(r, text::name_among(letters@, inner@, pos as int)),
        r matches Some(end) ==> pos < end && (end <= inner@.len() || end == pos + 1),
{
    if pos < letters.len() && letters[pos] {
        let mut i = pos + 1;
        while i < inner.len() && inner[i]
            invariant
                pos < i,
                i <= inner@.len() || i == pos + 1,
                text::run_end(inner@, pos + 1) == text::run_end(inner@, i as int),
            decreases inner@.len() - i,
        {
            i += 1;
        }
        Some(i)
    } else {
        None
    }
}

/// A name: a letter, then letters, digits and underscores.
pub fn name(source: &Source, pos: usize) -> (r: Option<usize>)
    ensures
        ends_as(r, text::name(source@, pos as int)),
        r matches Some(end) ==> pos < end <= source@.len(),
{
    proof {
        use_type_invariant(source);
    }
    name_among(source.letters.as_slice(), source.inner.as_slice(), pos)
}

/// A register: `v` in either case and one hexadecimal digit.
pub fn vreg(text: &[char], pos: usize) -> (r: Option<(VReg, usize)>)
    requires
        pos <= text@.len(),
    ensures
        reads_as(r, text::register(text@, pos as int)),
        r matches Some((v, end)) ==> v < 16 && end == pos + 2 && end <= text@.len(),
{
    if text.len() - pos >= 2 && to_lower(text[pos]) == 'v' {
        match digit(text[pos + 1], 16) {
            Some(d) => Some((d as u8, pos + 2)),
            None => None,
        }
    } else {
        None
    }
}

/// What stands between two operands: a comma, with blanks before and after
/// it or not.
pub fn arg_sep(text: &[char], pos: usize) -> (r: Option<usize>)
    requires
        pos <= text@.len(),
    ensures
        ends_as(r, text::separator(text@, pos as int)),
        r matches Some(end) ==> pos < end <= text@.len(),
{
    let comma = space0(text, pos);
    if comma < text.len() && text[comma] == ',' {
        Some(space0(text, comma + 1))
    } else {
        None
    }
}

/// The end of a line: a line feed, or a carriage return and a line feed.
pub fn line_ending(text: &[char], pos: usize) -> (r: Option<usize>)
    requires
        pos <= text@.len(),
    ensures
        ends_as(r, text::line_ending(text@, pos as int)),
        r matches Some(end) ==> pos < end <= text@.len(),
{
    if pos < text.len() && text[pos] == '\n' {
        Some(pos + 1)
    } else if text.len() - pos >= 2 && text[pos] == '\r' && text[pos + 1] == '\n' {
        Some(pos + 2)
    } else {
        None
    }
}

/// A comment: `#` and what follows up to the end of the line. The result is
/// where the comment ends; its words begin one character after `pos`.
pub fn comment(text: &[char], pos: usize) -> (r: Option<usize>)
    requires
        pos <= text@.len(),
    ensures
        ends_as(r, text::comment(text@, pos as int)),
        r matches Some(end) ==> pos < end <= text@.len(),
{
    if pos < text.len() && text[pos] == '#' {
        let mut i = pos + 1;
        while i < text.len() && text[i] != '\r' && text[i] != '\n'
            invariant
                pos < i <= text@.len(),
                text::rest_of_line(text@, pos + 1) == text::rest_of_line(text@, i as int),
            decreases text@.len() - i,
        {
            i += 1;
        }
        if i < text.len() && text[i] == '\r' && line_ending(text, i).is_none() {
            None
        } else {
            Some(i)
        }
    } else {
        None
    }
}

/// A source text, held both as it came and character by character, so that
/// a place in it can be looked at and a piece of it cut out.
pub struct Source<'a> {
    text: &'a str,
    chars: Vec<char>,
    /// Of each character, whether it is a letter.
    letters: Vec<bool>,
    /// Of each character, whether it may stand inside a name.
    inner: Vec<bool>,
}

impl<'a> View for Source<'a> {
    type V = Seq<char>;

    closed spec fn view(&self) -> Seq<char> {
        self.chars@
    }
}

impl<'a> Source<'a> {
    #[verifier::type_invariant]
    spec fn same_text(self) -> bool {
        &&& self.text@ == self.chars@
        &&& self.letters@ == text::letters_of(self.chars@)
        &&& self.inner@ == text::name_chars_of(self.chars@)
    }

    /// The source that a text is.
    pub fn new(text: &'a str) -> (source: Source<'a>)
        ensures
            source@ == text@,
    {
        let chars = chars_of(text);
        let (letters, inner) = classify(chars.as_slice());
        Source { text, chars, letters, inner }
    }

    /// The characters of the source.
    pub fn chars(&self) -> (chars: &[char])
        ensures
            chars@ == self@,
    {
        self.chars.as_slice()
    }

    /// The piece of the source from the character at `from` up to the one at
    /// `to`.
    pub fn slice(&self, from: usize, to: usize) -> (piece: String)
        requires
            from <= to <= self@.len(),
        ensures
            piece@ == self@.subrange(from as int, to as int),
    {
        proof {
            use_type_invariant(self);
        }
        self.text.substring_char(from, to).to_owned()
    }
}

/// Whether a reading gave an address that says what the grammar says and
/// ended where it says.
pub open spec fn addresses_as(r: Option<(Addr, usize)>, s: Option<(AddrView, int)>) -> bool {
    match s {
        Some((a, end)) => r matches Some((found, at)) && found@ == a && at == end,
        None => r is None,
    }
}

/// Whether a reading gave an instruction that says what the grammar says
/// and ended where it says.
pub open spec fn encodes_as(
    r: Option<(Opcode, usize)>,
    s: Option<(Opcode<AddrView>, int)>,
) -> bool {
    match s {
        Some((o, end)) => r matches Some((found, at)) && found@ == o && at == end,
        None => r is None,
    }
}

/// A mnemonic in either case and at least one blank after it.
pub fn mnemonic(text: &[char], pos: usize, w: &str) -> (r: Option<usize>)
    requires
        pos <= text@.len(),
    ensures
        ends_as(r, grammar::mnemonic(text@, pos as int, w@)),
        r matches Some(end) ==> pos < end <= text@.len(),
{
    match tag_no_case(text, pos, w) {
        Some(p) => space1(text, p),
        None => None,
    }
}

/// An address that stands as a number.
pub fn imm_addr(text: &[char], pos: usize) -> (r: Option<(Addr, usize)>)
    requires
        pos <= text@.len(),
    ensures
        match text::number(text@, pos as int, 0xFFFF) {
            Some((value, end)) => r matches Some((Addr::Imm(a), at)) && a == value && at == end,
            None => r is None,
        },
        r matches Some((_, end)) ==> pos < end <= text@.len(),
{
    match number(text, pos, 0xFFFF) {
        Some((value, end)) => Some((Addr::Imm(value as u16), end)),
        None => None,
    }
}

/// An address that stands as the name of a label.
pub fn label_ref(source: &Source, pos: usize) -> (r: Option<(Addr, usize)>)
    requires
        pos <= source@.len(),
    ensures
        match text::name(source@, pos as int) {
            Some(end) => r matches Some((Addr::LabelRef(s), at)) && s@ == source@.subrange(
                pos as int,
                end,
            ) && at == end,
            None => r is None,
        },
        r matches Some((_, end)) ==> pos < end <= source@.len(),
{
    match name(source, pos) {
        Some(end) => Some((Addr::LabelRef(source.slice(pos, end)), end)),
        None => None,
    }
}

/// An address: a number of sixteen bits, or else the name of a label.
pub fn addr(source: &Source, pos: usize) -> (r: Option<(Addr, usize)>)
    requires
        pos <= source@.len(),
    ensures
        addresses_as(r, grammar::address(source@, pos as int)),
        r matches Some((_, end)) ==> pos < end <= source@.len(),
{
    match imm_addr(source.chars(), pos) {
        Some(found) => Some(found),
        None => label_ref(source, pos),
    }
}

fn with_address(source: &Source, pos: usize, w: &str) -> (r: Option<(Addr, usize)>)
    requires
        pos <= source@.len(),
    ensures
        addresses_as(r, grammar::with_address(source@, pos as int, w@)),
        r matches Some((_, end)) ==> pos < end <= source@.len(),
{
    match mnemonic(source.chars(), pos, w) {
        Some(p) => addr(source, p),
        None => None,
    }
}

fn with_key_address(source: &Source, pos: usize, w: &str, key: &str) -> (r: Option<
    (Addr, usize),
>)
    requires
        pos <= source@.len(),
    ensures
        addresses_as(r, grammar::with_key_address(source@, pos as int, w@, key@)),
        r matches Some((_, end)) ==> pos < end <= source@.len(),
{
    match mnemonic(source.chars(), pos, w) {
        Some(p) => match tag_no_case(source.chars(), p, key) {
            Some(q) => match arg_sep(source.chars(), q) {
                Some(r) => addr(source, r),
                None => None,
            },
            None => None,
        },
        None => None,
    }
}

/// A mnemonic, a register, and a byte.
pub fn reg_imm(text: &[char], pos: usize, w: &str) -> (r: Option<((VReg, u8), usize)>)
    requires
        pos <= text@.len(),
    ensures
        reads_as(r, grammar::with_reg_imm(text@, pos as int, w@)),
        r matches Some(((v, _), end)) ==> v < 16 && pos < end <= text@.len(),
{
    match mnemonic(text, pos, w) {
        Some(p) => match vreg(text, p) {
            Some((v, q)) => match arg_sep(text, q) {
                Some(s) => match number(text, s, 0xFF) {
                    Some((b, end)) => Some(((v, b as u8), end)),
                    None => None,
                },
                None => None,
            },
            None => None,
        },
        None => None,
    }
}

/// A mnemonic and two registers.
pub fn reg_reg(text: &[char], pos: usize, w: &str) -> (r: Option<((VReg, VReg), usize)>)
    requires
        pos <= text@.len(),
    ensures
        reads_as(r, grammar::with_reg_reg(text@, pos as int, w@)),
        r matches Some(((v1, v2), end)) ==> v1 < 16 && v2 < 16 && pos < end <= text@.len(),
{
    match mnemonic(text, pos, w) {
        Some(p) => match vreg(text, p) {
            Some((v1, q)) => match arg_sep(text, q) {
                Some(s) => match vreg(text, s) {
                    Some((v2, end)) => Some(((v1, v2), end)),
                    None => None,
                },
                None => None,
            },
            None => None,
        },
        None => None,
    }
}

fn with_reg(text: &[char], pos: usize, w: &str) -> (r: Option<(VReg, usize)>)
    requires
        pos <= text@.len(),
    ensures
        reads_as(r, grammar::with_reg(text@, pos as int, w@)),
        r matches Some((v, end)) ==> v < 16 && pos < end <= text@.len(),
{
    match mnemonic(text, pos, w) {
        Some(p) => vreg(text, p),
        None => None,
    }
}

fn with_reg_key(text: &[char], pos: usize, w: &str, key: &str) -> (r: Option<(VReg, usize)>)
    requires
        pos <= text@.len(),
    ensures
        reads_as(r, grammar::with_reg_key(text@, pos as int, w@, key@)),
        r matches Some((v, end)) ==> v < 16 && pos < end <= text@.len(),
{
    match mnemonic(text, pos, w) {
        Some(p) => match vreg(text, p) {
            Some((v, q)) => match arg_sep(text, q) {
                Some(s) => match tag_no_case(text, s, key) {
                    Some(end) => Some((v, end)),
                    None => None,
                },
                None => None,
            },
            None => None,
        },
        None => None,
    }
}

fn with_key_reg(text: &[char], pos: usize, w: &str, key: &str) -> (r: Option<(VReg, usize)>)
    requires
        pos <= text@.len(),
    ensures
        reads_as(r, grammar::with_key_reg(text@, pos as int, w@, key@)),
        r matches Some((v, end)) ==> v < 16 && pos < end <= text@.len(),
{
    match mnemonic(text, pos, w) {
        Some(p) => match tag_no_case(text, p, key) {
            Some(q) => match arg_sep(text, q) {
                Some(s) => vreg(text, s),
                None => None,
            },
            None => None,
        },
        None => None,
    }
}

/// The instructions without operands.
pub fn oc_noarg(text: &[char], pos: usize) -> (r: Option<(Opcode, usize)>)
    requires
        pos <= text@.len(),
    ensures
        encodes_as(r, grammar::oc_noarg(text@, pos as int)),
        r matches Some((_, end)) ==> pos <= end <= text@.len(),
{
    match tag_no_case(text, pos, "cls") {
        Some(end) => Some((Opcode::ClearDisplay, end)),
        None => match tag_no_case(text, pos, "ret") {
            Some(end) => Some((Opcode::Return, end)),
            None => None,
        },
    }
}

/// The instructions with an address.
pub fn oc_addr(source: &Source, pos: usize) -> (r: Option<(Opcode, usize)>)
    requires
        pos <= source@.len(),
    ensures
        encodes_as(r, grammar::oc_addr(source@, pos as int)),
        r matches Some((_, end)) ==> pos <= end <= source@.len(),
{
    match with_key_address(source, pos, "jp", "v0") {
        Some((a, end)) => {
            return Some((Opcode::JumpV0(a), end));
        },
        None => {},
    }
    match with_address(source, pos, "jp") {
        Some((a, end)) => {
            return Some((Opcode::Jump(a), end));
        },
        None => {},
    }
    match with_address(source, pos, "call") {
        Some((a, end)) => {
            return Some((Opcode::Call(a), end));
        },
        None => {},
    }
    match with_key_address(source, pos, "ld", "i") {
        Some((a, end)) => Some((Opcode::LoadI(a), end)),
        None => None,
    }
}

/// The instructions with a register and a byte.
pub fn oc_reg_imm(text: &[char], pos: usize) -> (r: Option<(Opcode, usize)>)
    requires
        pos <= text@.len(),
    ensures
        encodes_as(r, grammar::oc_reg_imm(text@, pos as int)),
        r matches Some((_, end)) ==> pos <= end <= text@.len(),
{
    match reg_imm(text, pos, "se") {
        Some(((v, b), end)) => {
            return Some((Opcode::SkipEqImm(v, b), end));
        },
        None => {},
    }
    match reg_imm(text, pos, "sne") {
        Some(((v, b), end)) => {
            return Some((Opcode::SkipNotEqImm(v, b), end));
        },
        None => {},
    }
    match reg_imm(text, pos, "ld") {
        Some(((v, b), end)) => {
            return Some((Opcode::LoadImm(v, b), end));
        },
        None => {},
    }
    match reg_imm(text, pos, "add") {
        Some(((v, b), end)) => {
            return Some((Opcode::AddImm(v, b), end));
        },
        None => {},
    }
    match reg_imm(text, pos, "rnd") {
        Some(((v, b), end)) => Some((Opcode::Random(v, b), end)),
        None => None,
    }
}

fn oc_reg_reg_first(text: &[char], pos: usize) -> (r: Option<(Opcode, usize)>)
    requires
        pos <= text@.len(),
    ensures
        encodes_as(r, grammar::oc_reg_reg_first(text@, pos as int)),
        r matches Some((_, end)) ==> pos <= end <= text@.len(),
{
    match reg_reg(text, pos, "se") {
        Some(((v1, v2), end)) => {
            return Some((Opcode::SkipEqReg(v1, v2), end));
        },
        None => {},
    }
    match reg_reg(text, pos, "ld") {
        Some(((v1, v2), end)) => {
            return Some((Opcode::LoadReg(v1, v2), end));
        },
        None => {},
    }
    match reg_reg(text, pos, "or") {
        Some(((v1, v2), end)) => {
            return Some((Opcode::OrReg(v1, v2), end));
        },
        None => {},
    }
    match reg_reg(text, pos, "and") {
        Some(((v1, v2), end)) => {
            return Some((Opcode::AndReg(v1, v2), end));
        },
        None => {},
    }
    match reg_reg(text, pos, "xor") {
        Some(((v1, v2), end)) => {
            return Some((Opcode::XorReg(v1, v2), end));
        },
        None => {},
    }
    match reg_reg(text, pos, "add") {
        Some(((v1, v2), end)) => Some((Opcode::AddReg(v1, v2), end)),
        None => None,
    }
}

fn oc_reg_reg_second(text: &[char], pos: usize) -> (r: Option<(Opcode, usize)>)
    requires
        pos <= text@.len(),
    ensures
        encodes_as(r, grammar::oc_reg_reg_second(text@, pos as int)),
        r matches Some((_, end)) ==> pos <= end <= text@.len(),
{
    match reg_reg(text, pos, "sub") {
        Some(((v1, v2), end)) => {
            return Some((Opcode::SubReg(v1, v2), end));
        },
        None => {},
    }
    match reg_reg(text, pos, "shr") {
        Some(((v1, v2), end)) => {
            return Some((Opcode::ShiftRight(v1, v2), end));
        },
        None => {},
    }
    match reg_reg(text, pos, "subn") {
        Some(((v1, v2), end)) => {
            return Some((Opcode::SubN(v1, v2), end));
        },
        None => {},
    }
    match reg_reg(text, pos, "shl") {
        Some(((v1, v2), end)) => {
            return Some((Opcode::ShiftLeft(v1, v2), end));
        },
        None => {},
    }
    match reg_reg(text, pos, "sne") {
        Some(((v1, v2), end)) => Some((Opcode::SkipNotEqReg(v1, v2), end)),
        None => None,
    }
}

/// The instructions with two registers.
pub fn oc_reg_reg(text: &[char], pos: usize) -> (r: Option<(Opcode, usize)>)
    requires
        pos <= text@.len(),
    ensures
        encodes_as(r, grammar::oc_reg_reg(text@, pos as int)),
        r matches Some((_, end)) ==> pos <= end <= text@.len(),
{
    match oc_reg_reg_first(text, pos) {
        Some(found) => Some(found),
        None => oc_reg_reg_second(text, pos),
    }
}

fn oc_reg_first(text: &[char], pos: usize) -> (r: Option<(Opcode, usize)>)
    requires
        pos <= text@.len(),
    ensures
        encodes_as(r, grammar::oc_reg_first(text@, pos as int)),
        r matches Some((_, end)) ==> pos <= end <= text@.len(),
{
    match with_reg(text, pos, "skp") {
        Some((v, end)) => {
            return Some((Opcode::SkipKeyPressed(v), end));
        },
        None => {},
    }
    match with_reg(text, pos, "skpn") {
        Some((v, end)) => {
            return Some((Opcode::SkipKeyNotPressed(v), end));
        },
        None => {},
    }
    match with_reg_key(text, pos, "ld", "dt") {
        Some((v, end)) => {
            return Some((Opcode::LoadDelayTimer(v), end));
        },
        None => {},
    }
    match with_reg_key(text, pos, "ld", "k") {
        Some((v, end)) => {
            return Some((Opcode::WaitKeyPress(v), end));
        },
        None => {},
    }
    match with_key_reg(text, pos, "ld", "dt") {
        Some((v, end)) => {
            return Some((Opcode::SetDelayTimer(v), end));
        },
        None => {},
    }
    match with_key_reg(text, pos, "ld", "st") {
        Some((v, end)) => Some((Opcode::SetSoundTimer(v), end)),
        None => None,
    }
}

fn oc_reg_second(text: &[char], pos: usize) -> (r: Option<(Opcode, usize)>)
    requires
        pos <= text@.len(),
    ensures
        encodes_as(r, grammar::oc_reg_second(text@, pos as int)),
        r matches Some((_, end)) ==> pos <= end <= text@.len(),
{
    match with_key_reg(text, pos, "add", "i") {
        Some((v, end)) => {
            return Some((Opcode::AddI(v), end));
        },
        None => {},
    }
    match with_key_reg(text, pos, "ld", "f") {
        Some((v, end)) => {
            return Some((Opcode::LoadSprite(v), end));
        },
        None => {},
    }
    match with_key_reg(text, pos, "ld", "b") {
        Some((v, end)) => {
            return Some((Opcode::LoadBCD(v), end));
        },
        None => {},
    }
    match with_key_reg(text, pos, "ld", "[i]") {
        Some((v, end)) => {
            return Some((Opcode::SaveRegs(v), end));
        },
        None => {},
    }
    match with_reg_key(text, pos, "ld", "[i]") {
        Some((v, end)) => Some((Opcode::LoadRegs(v), end)),
        None => None,
    }
}

/// The instructions with one register.
pub fn oc_reg(text: &[char], pos: usize) -> (r: Option<(Opcode, usize)>)
    requires
        pos <= text@.len(),
    ensures
        encodes_as(r, grammar::oc_reg(text@, pos as int)),
        r matches Some((_, end)) ==> pos <= end <= text@.len(),
{
    match oc_reg_first(text, pos) {
        Some(found) => Some(found),
        None => oc_reg_second(text, pos),
    }
}

/// A nibble: a byte that is below 16.
pub fn nibble(text: &[char], pos: usize) -> (r: Option<(u8, usize)>)
    requires
        pos <= text@.len(),
    ensures
        reads_as(r, grammar::nibble(text@, pos as int)),
        r matches Some((n, end)) ==> n < 16 && pos < end <= text@.len(),
{
    match number(text, pos, 0xFF) {
        Some((value, end)) => if value < 16 {
            Some((value as u8, end))
        } else {
            None
        },
        None => None,
    }
}

/// `DRW Vx, Vy, n`.
pub fn oc_special(text: &[char], pos: usize) -> (r: Option<(Opcode, usize)>)
    requires
        pos <= text@.len(),
    ensures
        encodes_as(r, grammar::oc_special(text@, pos as int)),
        r matches Some((_, end)) ==> pos <= end <= text@.len(),
{
    match reg_reg(text, pos, "drw") {
        Some(((v1, v2), p)) => match arg_sep(text, p) {
            Some(q) => match nibble(text, q) {
                Some((n, end)) => Some((Opcode::Draw(v1, v2, n), end)),
                None => None,
            },
            None => None,
        },
        None => None,
    }
}

/// An instruction of the machine.
pub fn opcode(source: &Source, pos: usize) -> (r: Option<(Opcode, usize)>)
    requires
        pos <= source@.len(),
    ensures
        encodes_as(r, grammar::opcode(source@, pos as int)),
        r matches Some((_, end)) ==> pos <= end <= source@.len(),
{
    match oc_noarg(source.chars(), pos) {
        Some(found) => {
            return Some(found);
        },
        None => {},
    }
    match oc_addr(source, pos) {
        Some(found) => {
            return Some(found);
        },
        None => {},
    }
    match oc_reg_imm(source.chars(), pos) {
        Some(found) => {
            return Some(found);
        },
        None => {},
    }
    match oc_reg_reg(source.chars(), pos) {
        Some(found) => {
            return Some(found);
        },
        None => {},
    }
    match oc_reg(source.chars(), pos) {
        Some(found) => {
            return Some(found);
        },
        None => {},
    }
    oc_special(source.chars(), pos)
}

/// Data: one byte or more, with separators between them.
pub fn data(text: &[char], pos: usize) -> (r: Option<(Vec<u8>, usize)>)
    requires
        pos <= text@.len(),
    ensures
        match grammar::data(text@, pos as int) {
            Some((bytes, end)) => r matches Some((found, at)) && found@ == bytes && at == end,
            None => r is None,
        },
        r matches Some((_, end)) ==> pos < end <= text@.len(),
{
    match number(text, pos, 0xFF) {
        None => None,
        Some((first, begin)) => {
            let mut bytes: Vec<u8> = Vec::new();
            bytes.push(first as u8);
            let mut cur = begin;
            let mut more = true;
            let ghost all = grammar::more_data(text@, begin as int);
            while more
                invariant
                    pos < cur <= text@.len(),
                    seq![first as u8] + all.0 == bytes@ + grammar::more_data(text@, cur as int).0,
                    all.1 == grammar::more_data(text@, cur as int).1,
                    !more ==> grammar::more_data(text@, cur as int) == (
                        Seq::<u8>::empty(),
                        cur as int,
                    ),
                decreases text@.len() - cur + if more { 1int } else { 0int },
            {
                let ghost before = bytes@;
                match arg_sep(text, cur) {
                    None => {
                        more = false;
                    },
                    Some(p) => match number(text, p, 0xFF) {
                        None => {
                            more = false;
                        },
                        Some((value, end)) => {
                            bytes.push(value as u8);
                            proof {
                                let rest = grammar::more_data(text@, end as int).0;
                                assert(before + (seq![value as u8] + rest) =~= bytes@ + rest);
                            }
                            cur = end;
                        },
                    },
                }
            }
            assert(bytes@ + Seq::<u8>::empty() =~= bytes@);
            Some((bytes, cur))
        },
    }
}

/// What a line assembles to, data or else an instruction, and the blanks
/// after it.
pub fn instr(source: &Source, pos: usize) -> (r: Option<(Instr, usize)>)
    requires
        pos <= source@.len(),
    ensures
        match grammar::instr(source@, pos as int) {
            Some((i, end)) => r matches Some((found, at)) && found@ == i && at == end,
            None => r is None,
        },
        r matches Some((_, end)) ==> pos <= end <= source@.len(),
{
    match data(source.chars(), pos) {
        Some((bytes, end)) => Some((Instr::Data(bytes), space0(source.chars(), end))),
        None => match opcode(source, pos) {
            Some((o, end)) => Some((Instr::Opcode(o), space0(source.chars(), end))),
            None => None,
        },
    }
}

/// A label definition: a name and a colon.
pub fn maybe_label(source: &Source, pos: usize) -> (r: Option<(String, usize)>)
    requires
        pos <= source@.len(),
    ensures
        match grammar::label(source@, pos as int) {
            Some((l, end)) => r matches Some((found, at)) && found@ == l && at == end,
            None => r is None,
        },
        r matches Some((_, end)) ==> pos < end <= source@.len(),
{
    match name(source, pos) {
        Some(end) => if end < source.chars().len() && source.chars()[end] == ':' {
            Some((source.slice(pos, end), end + 1))
        } else {
            None
        },
        None => None,
    }
}

/// The instruction of a line: it stands after at least one blank.
pub fn maybe_instr(source: &Source, pos: usize) -> (r: Option<(Instr, usize)>)
    requires
        pos <= source@.len(),
    ensures
        match grammar::maybe_instr(source@, pos as int) {
            Some((i, end)) => r matches Some((found, at)) && found@ == i && at == end,
            None => r is None,
        },
        r matches Some((_, end)) ==> pos < end <= source@.len(),
{
    match space1(source.chars(), pos) {
        Some(p) => instr(source, p),
        None => None,
    }
}

/// A line: a label definition or none, then an instruction or none, then a
/// comment or none.
pub fn line(source: &Source, pos: usize) -> (r: (Line, usize))
    requires
        pos <= source@.len(),
    ensures
        r.0@ == grammar::line(source@, pos as int).0,
        r.1 == grammar::line(source@, pos as int).1,
        pos <= r.1 <= source@.len(),
{
    let (label, p) = match maybe_label(source, pos) {
        Some((label, p)) => (Some(label), p),
        None => (None, pos),
    };
    let (instr, q) = match maybe_instr(source, p) {
        Some((i, q)) => (Some(i), q),
        None => (None, p),
    };
    let end = match comment(source.chars(), q) {
        Some(end) => end,
        None => q,
    };
    (Line { label, instr }, end)
}

/// Lines with line endings between them, as many as there are.
pub fn lines(source: &Source, pos: usize) -> (r: (Vec<Line>, usize))
    requires
        pos <= source@.len(),
    ensures
        line_views(r.0@) == grammar::lines(source@, pos as int).0,
        r.1 == grammar::lines(source@, pos as int).1,
        pos <= r.1 <= source@.len(),
        r.0@.len() >= 1,
{
    let mut parsed: Vec<Line> = Vec::new();
    let mut cur = pos;
    let mut end = pos;
    let mut more = true;
    let ghost all = grammar::lines(source@, pos as int);
    while more
        invariant
                pos <= cur <= source@.len(),
            more ==> all.0 == line_views(parsed@) + grammar::lines(source@, cur as int).0,
            more ==> all.1 == grammar::lines(source@, cur as int).1,
            !more ==> all.0 == line_views(parsed@) && all.1 == end && pos <= end <= source@.len()
                && parsed@.len() >= 1,
        decreases source@.len() - cur + if more { 1int } else { 0int },
    {
        let ghost before = parsed@;
        let (l, p) = line(source, cur);
        let ghost said = l@;
        parsed.push(l);
        proof {
            assert(line_views(parsed@) =~= line_views(before) + seq![said]);
        }
        match line_ending(source.chars(), p) {
            Some(q) => {
                proof {
                    let rest = grammar::lines(source@, q as int).0;
                    assert(line_views(before) + (seq![said] + rest) =~= line_views(parsed@) + rest);
                }
                cur = q;
            },
            None => {
                end = p;
                more = false;
            },
        }
    }
    (parsed, end)
}

/// The characters of a text, one by one.
pub fn chars_of(src: &str) -> (chars: Vec<char>)
    ensures
        chars@ == src@,
{
    let mut chars: Vec<char> = Vec::new();
    for c in it: src.chars()
        invariant
            chars@ == it.seq().take(it.index() as int),
    {
        chars.push(c);
    }
    chars
}

/// Parses a whole source text into its lines. The text has to be lines and
/// nothing else; where more follows, the error says where the lines end.
pub fn parse_lines(src: &str) -> (r: Result<Vec<Line>, ParseError>)
    ensures
        match grammar::parse(src@) {
            Ok(said) => r matches Ok(parsed) && line_views(parsed@) == said,
            Err(e) => r == Err::<Vec<Line>, ParseError>(e),
        },
{
    let source = Source::new(src);
    let (parsed, end) = lines(&source, 0);
    if end == source.chars().len() {
        Ok(parsed)
    } else {
        Err(ParseError { offset: end, line: parsed.len() })
    }
}

} // verus!
