//! What holds of every assembly, proved from the definitions of the
//! lexemes, the grammar and the two passes.

use vstd::prelude::*;
use crate::assembler::{spec_address, spec_encode_program, spec_first_pass};
use crate::encoder::{
    lemma_encode_identifiers, spec_encode_one_op, spec_encode_two_op,
    spec_from_mem_partial_encode, spec_instruction_words, spec_partially_encode,
    spec_referenced_name, spec_resolve, spec_target_offset, ByteView,
};
use crate::keywords::{Keyword, Register, Shape};
use crate::lexer::{
    lemma_identifier_end_bounds, lemma_skip_end_bounds, lemma_string_end_bounds,
    lemma_string_end_is_longest, lemma_word_end_bounds, skip_end, spec_free_quote,
    spec_is_word_char, spec_scan, string_end, word_end, LexemeView,
};
use crate::parser::{
    lemma_data_values_bounds, spec_parse, spec_signed_number, FromMemView, Instruction,
    InstructionView, LiteralView, TargetView,
};

verus! {

/// A one-operand instruction with a register operand emits exactly one
/// word.
pub proof fn law_register_operand_one_word(keyword: Keyword, register: Register)
    requires
        keyword.shape() == Shape::Unary,
    ensures
        spec_instruction_words(InstructionView::Unary(keyword, TargetView::Register(register)))
            matches Ok(words) && words.len() == 1,
{
}

/// A one-operand instruction with a literal or a memory operand emits
/// exactly two words.
pub proof fn law_wide_operand_two_words(keyword: Keyword, target: TargetView)
    requires
        keyword.shape() == Shape::Unary,
        target is Literal || target is FromMem,
    ensures
        spec_instruction_words(InstructionView::Unary(keyword, target)) matches Ok(words)
            && words.len() == 2,
{
}

/// The opcode of a two-operand instruction is its base opcode plus the
/// first operand's offset plus ten times the second operand's offset, and
/// both offsets can be read back from it.
pub proof fn law_two_operand_opcode(keyword: Keyword, lhs: TargetView, rhs: TargetView)
    requires
        keyword.shape() == Shape::Binary,
        !(rhs is FromMem),
    ensures
        ({
            &&& spec_instruction_words(InstructionView::Binary(keyword, lhs, rhs)) matches Ok(
                words,
            )
            &&& words.len() >= 1
            &&& words[0] matches ByteView::Definite(opcode)
            &&& opcode == keyword.base_opcode() + spec_target_offset(lhs) + 10
                * spec_target_offset(rhs)
            &&& (opcode - keyword.base_opcode()) % 10 == spec_target_offset(lhs)
            &&& (opcode - keyword.base_opcode()) / 10 == spec_target_offset(rhs)
        }),
{
    let words = spec_encode_two_op(keyword.base_opcode(), lhs, rhs);
    assert(words[0] == ByteView::Definite(
        (keyword.base_opcode() + spec_target_offset(lhs) + 10 * spec_target_offset(rhs)) as u16,
    ));
}

/// The offsets that the operands of a mnemonic can add to its opcode: none
/// without operands, up to 9 for a first operand, up to 8 for a second.
pub open spec fn spec_offsets_fit(keyword: Keyword, first: int, second: int) -> bool {
    match keyword.shape() {
        Shape::Pseudo => false,
        Shape::Nullary => first == 0 && second == 0,
        Shape::Unary => 0 <= first <= 9 && second == 0,
        Shape::Binary => 0 <= first <= 9 && 0 <= second <= 8,
    }
}

/// No two machine instructions share an opcode: the opcode word tells the
/// mnemonic and the offsets of both operands.
pub proof fn law_opcode_tells_instruction(
    keyword: Keyword,
    first: int,
    second: int,
    other: Keyword,
    other_first: int,
    other_second: int,
)
    requires
        spec_offsets_fit(keyword, first, second),
        spec_offsets_fit(other, other_first, other_second),
        keyword.base_opcode() + first + 10 * second == other.base_opcode() + other_first + 10
            * other_second,
    ensures
        keyword == other,
        first == other_first,
        second == other_second,
{
}

/// The first pass over one instruction more: the pass over the
/// instructions before it, then that instruction at the address they
/// make up.
pub proof fn lemma_first_pass_step(program: Seq<InstructionView>, k: int)
    requires
        0 <= k < program.len(),
    ensures
        spec_first_pass(program.take(k + 1)) == (match spec_first_pass(program.take(k)) {
            Err(error) => Err(error),
            Ok((slots, symbols)) => match spec_partially_encode(
                program[k],
                symbols,
                spec_address(slots.len()),
            ) {
                Err(error) => Err(error),
                Ok((emitted, defined)) => Ok((slots + emitted, defined)),
            },
        }),
{
    assert(program.take(k + 1).drop_last() == program.take(k));
    assert(program.take(k + 1).last() == program[k]);
}

/// Where the first pass succeeds on a program it succeeds on every
/// prefix; the prefix's slots open the program's slots, and the prefix's
/// symbols keep their values.
pub proof fn lemma_first_pass_prefix(program: Seq<InstructionView>, k: int)
    requires
        0 <= k <= program.len(),
        spec_first_pass(program) is Ok,
    ensures
        ({
            &&& spec_first_pass(program) matches Ok((slots, symbols))
            &&& spec_first_pass(program.take(k)) matches Ok((early_slots, early_symbols))
            &&& early_slots.len() <= slots.len()
            &&& slots.take(early_slots.len() as int) == early_slots
            &&& forall|name: Seq<char>| #[trigger]
                early_symbols.contains_key(name) ==> symbols.contains_key(name) && symbols[name]
                    == early_symbols[name]
        }),
    decreases program.len(),
{
    if k == program.len() {
        assert(program.take(k) == program);
        let slots = spec_first_pass(program)->Ok_0.0;
        assert(slots.take(slots.len() as int) == slots);
    } else {
        let front = program.drop_last();
        assert(front.take(k) == program.take(k));
        lemma_first_pass_prefix(front, k);
        let (slots, symbols) = spec_first_pass(program)->Ok_0;
        let (front_slots, front_symbols) = spec_first_pass(front)->Ok_0;
        let (early_slots, early_symbols) = spec_first_pass(program.take(k))->Ok_0;
        let (emitted, defined) = spec_partially_encode(
            program.last(),
            front_symbols,
            spec_address(front_slots.len()),
        )->Ok_0;
        assert(slots == front_slots + emitted);
        assert(symbols == defined);
        assert(slots.take(early_slots.len() as int) == early_slots) by {
            assert(front_slots.take(early_slots.len() as int) == early_slots);
            assert(slots.take(early_slots.len() as int) =~= front_slots.take(
                early_slots.len() as int,
            ));
        }
        assert forall|name: Seq<char>| #[trigger]
            early_symbols.contains_key(name) implies symbols.contains_key(name) && symbols[name]
            == early_symbols[name] by {
            assert(front_symbols.contains_key(name) && front_symbols[name] == early_symbols[name]);
        }
    }
}

/// `MARK x` followed by an instruction: `x` is the address of that
/// instruction's first word. The words that the instructions up to the
/// mark emit are counted, the instruction's own words follow them in the
/// image, and `x` resolves to their count.
pub proof fn law_mark_is_next_address(program: Seq<InstructionView>, j: int, name: Seq<char>)
    requires
        0 <= j < program.len() - 1,
        program[j] == InstructionView::Mark(name),
        spec_first_pass(program) is Ok,
    ensures
        ({
            &&& spec_first_pass(program) matches Ok((slots, symbols))
            &&& spec_first_pass(program.take(j + 1)) matches Ok((before, _))
            &&& spec_instruction_words(program[j + 1]) matches Ok(words)
            &&& before.len() + words.len() <= slots.len()
            &&& slots.subrange(before.len() as int, (before.len() + words.len()) as int) == words
            &&& symbols.contains_key(name)
            &&& symbols[name] == spec_address(before.len())
            &&& spec_resolve(symbols, ByteView::Identifier(false, name)) == Some(
                spec_address(before.len()),
            )
        }),
{
    lemma_mark_defines_address(program, j, name);
    lemma_first_pass_prefix(program, j + 1);
    lemma_first_pass_prefix(program, j + 2);
    lemma_first_pass_step(program, j + 1);
    let (slots, symbols) = spec_first_pass(program)->Ok_0;
    let (before, _) = spec_first_pass(program.take(j + 1))->Ok_0;
    let (after, _) = spec_first_pass(program.take(j + 2))->Ok_0;
    let words = spec_instruction_words(program[j + 1])->Ok_0;
    assert(after == before + words);
    assert(slots.subrange(before.len() as int, (before.len() + words.len()) as int) == words) by {
        assert(slots.take(after.len() as int) == after);
        assert forall|i: int| 0 <= i < words.len() implies slots.subrange(
            before.len() as int,
            (before.len() + words.len()) as int,
        )[i] == words[i] by {
            assert(slots.take(after.len() as int)[before.len() + i] == after[before.len() + i]);
        }
    }
}

/// A `MARK` at index `j` defines its name as the address that the words
/// before it make up, and emits nothing.
pub proof fn lemma_mark_defines_address(program: Seq<InstructionView>, j: int, name: Seq<char>)
    requires
        0 <= j < program.len(),
        program[j] == InstructionView::Mark(name),
        spec_first_pass(program) is Ok,
    ensures
        ({
            &&& spec_first_pass(program) matches Ok((_, symbols))
            &&& spec_first_pass(program.take(j)) matches Ok((before, _))
            &&& spec_first_pass(program.take(j + 1)) matches Ok((same, _))
            &&& same == before
            &&& symbols.contains_key(name)
            &&& symbols[name] == spec_address(before.len())
        }),
{
    lemma_first_pass_prefix(program, j);
    lemma_first_pass_prefix(program, j + 1);
    lemma_first_pass_step(program, j);
    let (before, early) = spec_first_pass(program.take(j))->Ok_0;
    let (same, defined) = spec_first_pass(program.take(j + 1))->Ok_0;
    assert(same == before + Seq::<ByteView>::empty());
    assert(defined == early.insert(name, spec_address(before.len())));
    assert(defined.contains_key(name));
    assert(defined[name] == spec_address(before.len()));
}

/// A reference resolves to its label wherever the label stands: before
/// the reference or after it. For a one-operand instruction at index `i`
/// whose operand is the bare name of the `MARK` at index `j`, the word
/// after the opcode is the address that the words before the mark make
/// up.
pub proof fn law_reference_resolves_to_mark(
    program: Seq<InstructionView>,
    i: int,
    j: int,
    keyword: Keyword,
    label: Seq<char>,
)
    requires
        0 <= i < program.len(),
        0 <= j < program.len(),
        keyword.shape() == Shape::Unary,
        program[i] == InstructionView::Unary(
            keyword,
            TargetView::Literal(LiteralView::Identifier(false, label)),
        ),
        program[j] == InstructionView::Mark(label),
        spec_encode_program(program) is Ok,
    ensures
        ({
            &&& spec_encode_program(program) matches Ok(words)
            &&& spec_first_pass(program.take(i)) matches Ok((before_reference, _))
            &&& spec_first_pass(program.take(j)) matches Ok((before_mark, _))
            &&& before_reference.len() + 2 <= words.len()
            &&& words[before_reference.len() as int] == keyword.base_opcode() + 8
            &&& words[(before_reference.len() + 1) as int] == spec_address(before_mark.len())
        }),
{
    lemma_mark_defines_address(program, j, label);
    lemma_first_pass_prefix(program, i);
    lemma_first_pass_prefix(program, i + 1);
    lemma_first_pass_step(program, i);
    let (slots, symbols) = spec_first_pass(program)->Ok_0;
    let (before, _) = spec_first_pass(program.take(i))->Ok_0;
    let (after, _) = spec_first_pass(program.take(i + 1))->Ok_0;
    let emitted = spec_encode_one_op(
        keyword.base_opcode(),
        TargetView::Literal(LiteralView::Identifier(false, label)),
    );
    assert(after == before + emitted);
    assert(emitted.len() == 2);
    let at = before.len() as int;
    assert(slots[at] == emitted[0] && slots[at + 1] == emitted[1]) by {
        assert(slots.take(after.len() as int)[at] == after[at]);
        assert(slots.take(after.len() as int)[at + 1] == after[at + 1]);
    }
    lemma_encode_identifiers(symbols, slots);
}

/// A reference to a name that nothing defines fails the assembly with
/// that kind of error, and no word is handed out.
pub proof fn law_undefined_symbol_fails(program: Seq<InstructionView>, k: int)
    requires
        ({
            &&& spec_first_pass(program) matches Ok((slots, symbols))
            &&& 0 <= k < slots.len()
            &&& spec_referenced_name(slots[k]) matches Some(name)
            &&& !symbols.contains_key(name)
        }),
    ensures
        spec_encode_program(program) matches Err(error) && error is UndefinedSymbol,
{
    let (slots, symbols) = spec_first_pass(program)->Ok_0;
    lemma_encode_identifiers(symbols, slots);
    assert(spec_resolve(symbols, slots[k]) is None);
}

/// A memory operand whose offset is a named constant encodes to the same
/// word as the operand with the constant's value written out, in the
/// one-register form and in the two-register form alike.
pub proof fn law_named_offset_is_its_value(
    symbols: Map<Seq<char>, u16>,
    name: Seq<char>,
    negative: bool,
    first: Register,
    flag: bool,
    second: Register,
)
    requires
        symbols.contains_key(name),
    ensures
        spec_resolve(
            symbols,
            spec_from_mem_partial_encode(
                FromMemView::RegisterLiteral(first, LiteralView::Identifier(negative, name)),
            ),
        ) == spec_resolve(
            symbols,
            spec_from_mem_partial_encode(
                FromMemView::RegisterLiteral(
                    first,
                    LiteralView::Number(spec_signed_number(negative, symbols[name])),
                ),
            ),
        ),
        spec_resolve(
            symbols,
            spec_from_mem_partial_encode(
                FromMemView::TwoRegisterLiteral(
                    first,
                    flag,
                    second,
                    LiteralView::Identifier(negative, name),
                ),
            ),
        ) == spec_resolve(
            symbols,
            spec_from_mem_partial_encode(
                FromMemView::TwoRegisterLiteral(
                    first,
                    flag,
                    second,
                    LiteralView::Number(spec_signed_number(negative, symbols[name])),
                ),
            ),
        ),
{
}

/// A slot fails to resolve exactly when it refers to a name that the
/// symbols lack.
pub proof fn law_unresolved_iff_undefined(symbols: Map<Seq<char>, u16>, slot: ByteView)
    ensures
        spec_resolve(symbols, slot) is None <==> spec_referenced_name(slot) is Some
            && !symbols.contains_key(spec_referenced_name(slot)->0),
{
}

/// Every instruction's view is well formed.
pub proof fn law_instruction_well_formed(instruction: Instruction)
    ensures
        instruction@.well_formed(),
{
}

/// A lexeme lies at or after the position it was looked for from, within
/// the text, and is not empty.
pub proof fn law_lexeme_within_source(s: Seq<char>, pos: int)
    requires
        0 <= pos <= s.len(),
    ensures
        spec_scan(s, pos) matches Ok(Some((_, start, end))) ==> pos <= start < end <= s.len(),
{
    lemma_skip_end_bounds(s, pos, false);
    let start = skip_end(s, pos, false);
    if start < s.len() {
        lemma_string_end_bounds(s, start + 1, None);
        lemma_word_end_bounds(s, start);
        lemma_identifier_end_bounds(s, start + 1, false);
    }
}

/// A statement takes at least its mnemonic and ends within the tokens.
pub proof fn law_statement_takes_tokens(tokens: Seq<LexemeView>, pos: int)
    requires
        0 <= pos,
    ensures
        spec_parse(tokens, pos) matches Ok(Some((_, next))) ==> pos < next <= tokens.len(),
{
    lemma_data_values_bounds(tokens, pos + 1);
}

/// A string literal is the longest stretch of text from its opening quote
/// to a quote such that every quote in between follows a backslash. Its
/// closing quote follows a backslash only where no quote comes after it;
/// and where no quote follows the opening one, there is no literal.
pub proof fn law_string_literal_is_longest(s: Seq<char>, start: int)
    requires
        0 <= start < s.len(),
        s[start] == '"',
    ensures
        match string_end(s, start + 1, None) {
            Some(end) => {
                &&& start + 2 <= end <= s.len()
                &&& s[end - 1] == '"'
                &&& forall|q: int| start < q < end - 1 ==> !#[trigger] spec_free_quote(s, q)
                &&& s[end - 2] == '\\' ==> forall|q: int| end <= q < s.len() ==> s[q] != '"'
            },
            None => forall|q: int| start < q < s.len() ==> s[q] != '"',
        },
{
    lemma_string_end_is_longest(s, start, start + 1, None);
}

/// A run of word characters holds nothing else and cannot be made longer.
pub proof fn law_word_run_is_longest(s: Seq<char>, pos: int)
    requires
        0 <= pos <= s.len(),
    ensures
        pos <= word_end(s, pos) <= s.len(),
        forall|i: int| pos <= i < word_end(s, pos) ==> spec_is_word_char(s[i]),
        word_end(s, pos) < s.len() ==> !spec_is_word_char(s[word_end(s, pos)]),
    decreases s.len() - pos,
{
    if pos < s.len() && spec_is_word_char(s[pos]) {
        law_word_run_is_longest(s, pos + 1);
    }
}

} // verus!
