//! What holds of whole programs: where the bytes of a line lie in the image,
//! what a label stands for, and that the words of an assembled program are
//! instructions of the machine.

use crate::assembler::ast::InstrView;
use crate::assembler::ast::LineView;
use crate::assembler::ast::Opcode;
use crate::assembler::generator::address_of;
use crate::assembler::generator::assemble;
use crate::assembler::generator::big_endian;
use crate::assembler::generator::emit;
use crate::assembler::generator::encode;
use crate::assembler::generator::first_duplicate;
use crate::assembler::generator::label_addresses;
use crate::assembler::generator::label_pass;
use crate::assembler::generator::line_bytes;
use crate::assembler::generator::offset_of;
use crate::assembler::grammar;
use crate::assembler::roundtrip::lemma_assembles_to_an_instruction;
use crate::assembler::roundtrip::resolved;
use crate::assembler::roundtrip::source_of;
use crate::assembler::text;
use crate::memory::word_at;
use crate::opcode::decode;
use vstd::prelude::*;

verus! {

impl LineView {
    /// Whether the operands of the line's instruction fit their fields. Data
    /// and lines without an instruction fit.
    pub open spec fn fits(self) -> bool {
        match self.instr {
            Some(InstrView::Opcode(o)) => o.fits(),
            _ => true,
        }
    }
}

/// The image of the first `n` lines is as long as the lines say, and the
/// bytes of each line lie in it at the line's offset.
pub proof fn lemma_emit_layout(lines: Seq<LineView>, labels: Map<Seq<char>, int>, n: int, k: int)
    requires
        0 <= k < n <= lines.len(),
        emit(lines, labels, n) is Ok,
    ensures
        emit(lines, labels, n)->Ok_0.len() == offset_of(lines, n),
        line_bytes(lines[k], labels) is Ok,
        line_bytes(lines[k], labels)->Ok_0.len() == lines[k].size(),
        offset_of(lines, k) + lines[k].size() <= offset_of(lines, n),
        emit(lines, labels, n)->Ok_0.subrange(
            offset_of(lines, k) as int,
            (offset_of(lines, k) + lines[k].size()) as int,
        ) == line_bytes(lines[k], labels)->Ok_0,
    decreases n,
{
    let before = emit(lines, labels, n - 1)->Ok_0;
    let last = line_bytes(lines[n - 1], labels)->Ok_0;
    let image = emit(lines, labels, n)->Ok_0;
    assert(image == before + last);
    if n - 1 > 0 {
        lemma_emit_layout(lines, labels, n - 1, 0);
    }
    assert(before.len() == offset_of(lines, n - 1));
    assert(last.len() == lines[n - 1].size());
    if k == n - 1 {
        assert(image.subrange(before.len() as int, (before.len() + last.len()) as int) =~= last);
    } else {
        lemma_emit_layout(lines, labels, n - 1, k);
        let from = offset_of(lines, k) as int;
        let to = (offset_of(lines, k) + lines[k].size()) as int;
        assert(image.subrange(from, to) =~= before.subrange(from, to));
    }
}

/// The labels that the first pass knows after `n` lines are the labels that
/// those lines define, and no others.
pub proof fn lemma_label_keys(lines: Seq<LineView>, n: int, name: Seq<char>)
    requires
        0 <= n <= lines.len(),
    ensures
        label_addresses(lines, n).contains_key(name) <==> exists|j: int|
            0 <= j < n && #[trigger] lines[j].label == Some(name),
    decreases n,
{
    if n > 0 {
        lemma_label_keys(lines, n - 1, name);
        if lines[n - 1].label == Some(name) {
        } else if exists|j: int| 0 <= j < n && #[trigger] lines[j].label == Some(name) {
            let j = choose|j: int| 0 <= j < n && #[trigger] lines[j].label == Some(name);
            assert(0 <= j < n - 1);
        }
    }
}

/// Where no label is defined twice, a label stands for the address at which
/// the line that defines it begins.
pub proof fn lemma_label_address(lines: Seq<LineView>, n: int, k: int)
    requires
        0 <= k < n <= lines.len(),
        first_duplicate(lines, n) is None,
        lines[k].label is Some,
    ensures
        label_addresses(lines, n).contains_key(lines[k].label->0),
        label_addresses(lines, n)[lines[k].label->0] == address_of(lines, k),
    decreases n,
{
    let name = lines[k].label->0;
    if k < n - 1 {
        lemma_label_address(lines, n - 1, k);
        if lines[n - 1].label == Some(name) {
            // the last line would define the label for the second time
            assert(label_addresses(lines, n - 1).contains_key(name));
            assert(first_duplicate(lines, n) is Some);
        }
    }
}

/// The two bytes of a word, read as a big-endian word, are the word.
pub proof fn lemma_big_endian_word(code: u16)
    ensures
        big_endian(code).len() == 2,
        word_at(big_endian(code), 0) == code,
{
}

/// A whole program. Where the lines assemble to an image, the image is as
/// long as the lines say. A label stands for the address, counted from
/// 0x200, at which the bytes of its line lie in the image. And
/// where a line's instruction fits its fields, the image holds at the line's
/// offset a word of the machine, which decodes to that instruction with its
/// label resolved.
pub proof fn lemma_assembled_program(lines: Seq<LineView>, k: int)
    requires
        0 <= k < lines.len(),
        assemble(lines) is Ok,
    ensures
        label_pass(lines) is Ok,
        assemble(lines)->Ok_0.len() == offset_of(lines, lines.len() as int),
        offset_of(lines, k) + lines[k].size() <= assemble(lines)->Ok_0.len(),
        lines[k].label matches Some(name) ==> label_pass(lines)->Ok_0.contains_key(name)
            && label_pass(lines)->Ok_0[name] == 0x200 + offset_of(lines, k),
        lines[k].instr matches Some(InstrView::Data(d)) ==> assemble(lines)->Ok_0.subrange(
            offset_of(lines, k) as int,
            (offset_of(lines, k) + d.len()) as int,
        ) == d,
        lines[k].instr matches Some(InstrView::Opcode(o)) ==> {
            let word = word_at(assemble(lines)->Ok_0, offset_of(lines, k) as int);
            &&& encode(o, label_pass(lines)->Ok_0) == Ok::<u16, Seq<char>>(word)
            &&& o.fits() ==> decode(word) is Some && source_of(decode(word)->0) == resolved(
                o,
                label_pass(lines)->Ok_0,
            )->0
        },
{
    let n = lines.len() as int;
    let labels = label_pass(lines)->Ok_0;
    let image = assemble(lines)->Ok_0;
    lemma_emit_layout(lines, labels, n, k);
    if lines[k].label is Some {
        lemma_label_address(lines, n, k);
    }
    match lines[k].instr {
        Some(InstrView::Opcode(o)) => {
            let code = encode(o, labels)->Ok_0;
            let at = offset_of(lines, k) as int;
            lemma_big_endian_word(code);
            assert(image.subrange(at, at + 2) == big_endian(code));
            assert(image[at] == image.subrange(at, at + 2)[0]);
            assert(image[at + 1] == image.subrange(at, at + 2)[1]);
            assert(word_at(image, at) == code);
            if o.fits() {
                lemma_assembles_to_an_instruction(o, labels);
            }
        },
        _ => {},
    }
}

/// A nibble that was read is below 16.
proof fn lemma_nibble_fits(text: Seq<char>, pos: int)
    ensures
        grammar::nibble(text, pos) matches Some((n, _)) ==> n < 16,
{
    text::lemma_number_not_negative(text, pos, 0xFF);
}

proof fn lemma_parsed_draw_fits(text: Seq<char>, pos: int)
    ensures
        grammar::oc_special(text, pos) matches Some((o, _)) ==> o.fits(),
{
    match grammar::with_reg_reg(text, pos, "drw"@) {
        Some((_, p)) => match text::separator(text, p) {
            Some(q) => lemma_nibble_fits(text, q),
            None => {},
        },
        None => {},
    }
}

proof fn lemma_parsed_reg_imm_fits(text: Seq<char>, pos: int)
    ensures
        grammar::oc_reg_imm(text, pos) matches Some((o, _)) ==> o.fits(),
{
}

proof fn lemma_parsed_reg_reg_first_fits(text: Seq<char>, pos: int)
    ensures
        grammar::oc_reg_reg_first(text, pos) matches Some((o, _)) ==> o.fits(),
{
}

proof fn lemma_parsed_reg_reg_second_fits(text: Seq<char>, pos: int)
    ensures
        grammar::oc_reg_reg_second(text, pos) matches Some((o, _)) ==> o.fits(),
{
}

proof fn lemma_parsed_reg_reg_fits(text: Seq<char>, pos: int)
    ensures
        grammar::oc_reg_reg(text, pos) matches Some((o, _)) ==> o.fits(),
{
    lemma_parsed_reg_reg_first_fits(text, pos);
    lemma_parsed_reg_reg_second_fits(text, pos);
}

proof fn lemma_parsed_reg_first_fits(text: Seq<char>, pos: int)
    ensures
        grammar::oc_reg_first(text, pos) matches Some((o, _)) ==> o.fits(),
{
}

proof fn lemma_parsed_reg_second_fits(text: Seq<char>, pos: int)
    ensures
        grammar::oc_reg_second(text, pos) matches Some((o, _)) ==> o.fits(),
{
}

proof fn lemma_parsed_reg_fits(text: Seq<char>, pos: int)
    ensures
        grammar::oc_reg(text, pos) matches Some((o, _)) ==> o.fits(),
{
    lemma_parsed_reg_first_fits(text, pos);
    lemma_parsed_reg_second_fits(text, pos);
}

/// The operands of an instruction that was read fit their fields.
pub proof fn lemma_parsed_opcode_fits(text: Seq<char>, pos: int)
    ensures
        grammar::opcode(text, pos) matches Some((o, _)) ==> o.fits(),
{
    lemma_parsed_reg_imm_fits(text, pos);
    lemma_parsed_reg_reg_fits(text, pos);
    lemma_parsed_reg_fits(text, pos);
    assert(grammar::oc_noarg(text, pos) matches Some((o, _)) ==> o.fits());
    assert(grammar::oc_addr(text, pos) matches Some((o, _)) ==> o.fits());
    lemma_parsed_draw_fits(text, pos);
}

/// The operands of every instruction in lines that were read fit their
/// fields.
pub proof fn lemma_parsed_lines_fit(text: Seq<char>, pos: int, k: int)
    requires
        0 <= k < grammar::lines(text, pos).0.len(),
    ensures
        grammar::lines(text, pos).0[k].fits(),
    decreases text.len() - pos, k,
{
    let (first, p) = grammar::line(text, pos);
    if k == 0 {
        match text::blanks1(text, match grammar::label(text, pos) {
            Some((_, q)) => q,
            None => pos,
        }) {
            Some(q) => {
                lemma_parsed_opcode_fits(text, q);
            },
            None => {},
        }
    } else {
        match text::line_ending(text, p) {
            Some(q) => {
                if pos < q <= text.len() {
                    let rest = grammar::lines(text, q).0;
                    assert(grammar::lines(text, pos).0 == seq![first] + rest);
                    assert(grammar::lines(text, pos).0[k] == rest[k - 1]);
                    lemma_parsed_lines_fit(text, q, k - 1);
                }
            },
            None => {},
        }
    }
}

/// Source text that parses and assembles gives an image of machine words:
/// at the offset of every line with an instruction stands a word that
/// decodes to that instruction with its label resolved.
pub proof fn lemma_source_to_image(source: Seq<char>, k: int)
    requires
        grammar::parse(source) is Ok,
        assemble(grammar::parse(source)->Ok_0) is Ok,
        0 <= k < grammar::parse(source)->Ok_0.len(),
        grammar::parse(source)->Ok_0[k].instr matches Some(InstrView::Opcode(_)),
    ensures
        ({
            let lines = grammar::parse(source)->Ok_0;
            let image = assemble(lines)->Ok_0;
            let o = lines[k].instr->0->Opcode_0;
            let word = word_at(image, offset_of(lines, k) as int);
            &&& offset_of(lines, k) + 2 <= image.len()
            &&& decode(word) is Some
            &&& source_of(decode(word)->0) == resolved(o, label_pass(lines)->Ok_0)->0
        }),
{
    let lines = grammar::parse(source)->Ok_0;
    lemma_parsed_lines_fit(source, 0, k);
    lemma_assembled_program(lines, k);
}

} // verus!
