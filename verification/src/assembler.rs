//! A whole assembly: from source text to the bytes of the image.

use vstd::prelude::*;
use crate::encoder::{
    bytes_view, encode_identifiers, partially_encode, spec_encode_identifiers,
    spec_partially_encode, Byte, ByteView, SymbolTable,
};
use crate::error::{AssembleError, AssembleErrorView};
use crate::lexer::{spec_tokenize, tokenize};
use crate::parser::{
    instructions_view, parse_program, spec_parse_program, Instruction, InstructionView,
};

verus! {

/// The address of the word that follows `count` words. Addresses are
/// sixteen bits wide and wrap around.
pub open spec fn spec_address(count: nat) -> u16 {
    (count % 0x10000) as u16
}

/// The first pass over a program: the slots emitted and the symbols
/// defined, or the first error. Each instruction is encoded at the
/// address that the slots before it make up.
pub open spec fn spec_first_pass(program: Seq<InstructionView>) -> Result<
    (Seq<ByteView>, Map<Seq<char>, u16>),
    AssembleErrorView,
>
    decreases program.len(),
{
    if program.len() == 0 {
        Ok((seq![], Map::empty()))
    } else {
        match spec_first_pass(program.drop_last()) {
            Err(error) => Err(error),
            Ok((slots, symbols)) => match spec_partially_encode(
                program.last(),
                symbols,
                spec_address(slots.len()),
            ) {
                Err(error) => Err(error),
                Ok((emitted, defined)) => Ok((slots + emitted, defined)),
            },
        }
    }
}

/// Both passes over a program: its words, or the first error.
pub open spec fn spec_encode_program(program: Seq<InstructionView>) -> Result<
    Seq<u16>,
    AssembleErrorView,
> {
    match spec_first_pass(program) {
        Err(error) => Err(error),
        Ok((slots, symbols)) => spec_encode_identifiers(symbols, slots),
    }
}

/// The bytes of an image: each word's high byte, then its low byte.
pub open spec fn spec_serialize(words: Seq<u16>) -> Seq<u8> {
    Seq::new(
        2 * words.len(),
        |i: int|
            if i % 2 == 0 {
                (words[i / 2] / 256) as u8
            } else {
                (words[i / 2] % 256) as u8
            },
    )
}

/// A whole assembly: the bytes of the image, or the first error. Lexical
/// errors come before syntax errors, and those before the errors of the
/// two passes.
pub open spec fn spec_assemble(source: Seq<char>) -> Result<Seq<u8>, AssembleErrorView> {
    match spec_tokenize(source) {
        Err(error) => Err(AssembleErrorView::Lex(error)),
        Ok(tokens) => match spec_parse_program(tokens) {
            Err(error) => Err(AssembleErrorView::Syntax(error)),
            Ok(program) => match spec_encode_program(program) {
                Err(error) => Err(error),
                Ok(words) => Ok(spec_serialize(words)),
            },
        },
    }
}

/// The first pass over a program, from an empty symbol table and address
/// zero: the slots of the image and the symbols, or the first error.
pub fn first_pass(program: &Vec<Instruction>) -> (result: Result<
    (Vec<Byte>, SymbolTable),
    AssembleError,
>)
    ensures
        match result {
            Ok((slots, symbols)) => spec_first_pass(instructions_view(program@)) matches Ok(
                (expected, defined),
            ) && bytes_view(slots@) == expected && symbols@ == defined,
            Err(error) => spec_first_pass(instructions_view(program@)) matches Err(expected)
                && error@ == expected,
        },
{
    let ghost view = instructions_view(program@);
    let mut slots: Vec<Byte> = Vec::new();
    let mut symbols = SymbolTable::new();
    let mut i: usize = 0;
    while i < program.len()
        invariant
            i <= program@.len(),
            view == instructions_view(program@),
            spec_first_pass(view.take(i as int)) matches Ok((expected, defined)) && bytes_view(
                slots@,
            ) == expected && symbols@ == defined,
        decreases program@.len() - i,
    {
        let address: u16 = (slots.len() % 0x10000) as u16;
        proof {
            assert(view.take(i + 1).drop_last() == view.take(i as int));
            assert(view.take(i + 1).last() == program@[i as int]@);
        }
        let ghost before = bytes_view(slots@);
        match partially_encode(&program[i], &mut symbols, address) {
            Err(error) => {
                proof {
                    lemma_first_pass_prefix_error(view, i + 1);
                }
                return Err(error);
            },
            Ok(emitted) => {
                let mut emitted = emitted;
                let ghost added = bytes_view(emitted@);
                slots.append(&mut emitted);
                assert(bytes_view(slots@) == before + added);
            },
        }
        i += 1;
    }
    proof {
        assert(view.take(i as int) == view);
    }
    Ok((slots, symbols))
}

/// An error of the first pass on a prefix is the error on the whole.
pub proof fn lemma_first_pass_prefix_error(program: Seq<InstructionView>, n: int)
    requires
        0 <= n <= program.len(),
        spec_first_pass(program.take(n)) is Err,
    ensures
        spec_first_pass(program) == spec_first_pass(program.take(n)),
    decreases program.len(),
{
    if n < program.len() {
        assert(program.drop_last().take(n) == program.take(n));
        lemma_first_pass_prefix_error(program.drop_last(), n);
    } else {
        assert(program.take(n) == program);
    }
}

/// Assembles a program into its words: the first pass over every
/// instruction, then the second pass over every slot.
pub fn encode_program(program: &Vec<Instruction>) -> (result: Result<Vec<u16>, AssembleError>)
    ensures
        match result {
            Ok(words) => spec_encode_program(instructions_view(program@)) matches Ok(expected)
                && words@ == expected,
            Err(error) => spec_encode_program(instructions_view(program@)) matches Err(expected)
                && error@ == expected,
        },
{
    match first_pass(program) {
        Err(error) => Err(error),
        Ok((slots, symbols)) => encode_identifiers(&symbols, &slots),
    }
}

/// Writes every word high byte first, with nothing before, between or
/// after the words.
pub fn serialize(words: &Vec<u16>) -> (bytes: Vec<u8>)
    ensures
        bytes@ == spec_serialize(words@),
{
    let mut bytes: Vec<u8> = Vec::new();
    let mut i: usize = 0;
    while i < words.len()
        invariant
            i <= words@.len(),
            bytes@.len() == 2 * i,
            forall|j: int|
                0 <= j < 2 * i ==> #[trigger] bytes@[j] == (if j % 2 == 0 {
                    (words@[j / 2] / 256) as u8
                } else {
                    (words@[j / 2] % 256) as u8
                }),
        decreases words@.len() - i,
    {
        let word: u16 = words[i];
        bytes.push((word / 256) as u8);
        bytes.push((word % 256) as u8);
        i += 1;
    }
    bytes
}

/// Assembles a source text into the bytes of its image. Any error ends
/// the assembly, and then no byte is handed out.
pub fn assemble(source: &str) -> (result: Result<Vec<u8>, AssembleError>)
    ensures
        match result {
            Ok(image) => spec_assemble(source@) matches Ok(expected) && image@ == expected,
            Err(error) => spec_assemble(source@) matches Err(expected) && error@ == expected,
        },
{
    let tokens = match tokenize(source) {
        Err(error) => {
            return Err(error);
        },
        Ok(tokens) => tokens,
    };
    let program = match parse_program(&tokens) {
        Err(error) => {
            return Err(AssembleError::Syntax(error));
        },
        Ok(program) => program,
    };
    match encode_program(&program) {
        Err(error) => Err(error),
        Ok(words) => Ok(serialize(&words)),
    }
}

} // verus!
