//! The instruction tree and the grammar that builds it from tokens.

use vstd::prelude::*;
use crate::error::{Context, Expected, SyntaxError};
use crate::keywords::{Keyword, Register, Shape};
use crate::lexer::{lexemes_view, to_chars, Lexeme, LexemeView, Token};

verus! {

/// A literal operand: a number, or the name of a symbol with the sign
/// under which it is referenced (`true` for minus).
#[derive(Debug, PartialEq, Eq)]
pub enum Literal {
    Number(u16),
    Identifier(bool, String),
}

/// An indirect operand: `[reg]`, `[reg±lit]`, `[reg±reg]` or
/// `[reg±reg±lit]`. The flag of the two-register forms is `true` where the
/// second register is subtracted from the first.
#[derive(Debug, PartialEq, Eq)]
pub enum FromMem {
    Register(Register),
    RegisterLiteral(Register, Literal),
    TwoRegister(Register, bool, Register),
    TwoRegisterLiteral(Register, bool, Register, Literal),
}

/// An operand.
#[derive(Debug, PartialEq, Eq)]
pub enum Target {
    Register(Register),
    Literal(Literal),
    FromMem(FromMem),
}

/// One parsed statement.
#[allow(non_camel_case_types)]
#[derive(Debug, PartialEq, Eq)]
pub enum Instruction {
    CONST(String, u16),
    MARK(String),
    DATA(Vec<u16>),
    DSTR(Vec<u16>),
    ADD(Target, Target),
    SUB(Target, Target),
    MUL(Target, Target),
    SMUL(Target, Target),
    DIV(Target, Target),
    SDIV(Target, Target),
    MOD(Target, Target),
    SMOD(Target, Target),
    NEG(Target),
    NOT(Target),
    AND(Target, Target),
    OR(Target, Target),
    XOR(Target, Target),
    SHL(Target, Target),
    SHR(Target, Target),
    SAR(Target, Target),
    CMP(Target, Target),
    JG(Target),
    JNG(Target),
    JL(Target),
    JNL(Target),
    JE(Target),
    JNE(Target),
    JMP(Target),
    SET(Target, Target),
    GET(Target, Target),
    SWAP(Target, Target),
    PUSH(Target),
    POP(Target),
    CALL(Target),
    RET,
    VPUSH(Target),
    VPOP(Target),
    NOP,
    HALT,
    EXTI(Target),
}

/// The mathematical value of a [`Literal`].
pub enum LiteralView {
    Number(u16),
    Identifier(bool, Seq<char>),
}

/// The mathematical value of a [`FromMem`].
pub enum FromMemView {
    Register(Register),
    RegisterLiteral(Register, LiteralView),
    TwoRegister(Register, bool, Register),
    TwoRegisterLiteral(Register, bool, Register, LiteralView),
}

/// The mathematical value of a [`Target`].
pub enum TargetView {
    Register(Register),
    Literal(LiteralView),
    FromMem(FromMemView),
}

/// The mathematical value of an [`Instruction`]: the pseudo-operations
/// with their payload, and every machine instruction as its mnemonic with
/// its operands.
pub enum InstructionView {
    Const(Seq<char>, u16),
    Mark(Seq<char>),
    Data(Seq<u16>),
    Dstr(Seq<u16>),
    Nullary(Keyword),
    Unary(Keyword, TargetView),
    Binary(Keyword, TargetView, TargetView),
}

impl View for Literal {
    type V = LiteralView;

    open spec fn view(&self) -> LiteralView {
        match self {
            Literal::Number(value) => LiteralView::Number(*value),
            Literal::Identifier(negative, name) => LiteralView::Identifier(*negative, name@),
        }
    }
}

impl View for FromMem {
    type V = FromMemView;

    open spec fn view(&self) -> FromMemView {
        match self {
            FromMem::Register(reg) => FromMemView::Register(*reg),
            FromMem::RegisterLiteral(reg, literal) => FromMemView::RegisterLiteral(*reg, literal@),
            FromMem::TwoRegister(lhs, subtract, rhs) => FromMemView::TwoRegister(
                *lhs,
                *subtract,
                *rhs,
            ),
            FromMem::TwoRegisterLiteral(lhs, subtract, rhs, literal) => {
                FromMemView::TwoRegisterLiteral(*lhs, *subtract, *rhs, literal@)
            },
        }
    }
}

impl View for Target {
    type V = TargetView;

    open spec fn view(&self) -> TargetView {
        match self {
            Target::Register(reg) => TargetView::Register(*reg),
            Target::Literal(literal) => TargetView::Literal(literal@),
            Target::FromMem(from_mem) => TargetView::FromMem(from_mem@),
        }
    }
}

impl View for Instruction {
    type V = InstructionView;

    open spec fn view(&self) -> InstructionView {
        match self {
            Instruction::CONST(name, value) => InstructionView::Const(name@, *value),
            Instruction::MARK(name) => InstructionView::Mark(name@),
            Instruction::DATA(data) => InstructionView::Data(data@),
            Instruction::DSTR(data) => InstructionView::Dstr(data@),
            Instruction::HALT => InstructionView::Nullary(Keyword::HALT),
            Instruction::NOP => InstructionView::Nullary(Keyword::NOP),
            Instruction::RET => InstructionView::Nullary(Keyword::RET),
            Instruction::NEG(t) => InstructionView::Unary(Keyword::NEG, t@),
            Instruction::NOT(t) => InstructionView::Unary(Keyword::NOT, t@),
            Instruction::PUSH(t) => InstructionView::Unary(Keyword::PUSH, t@),
            Instruction::POP(t) => InstructionView::Unary(Keyword::POP, t@),
            Instruction::VPUSH(t) => InstructionView::Unary(Keyword::VPUSH, t@),
            Instruction::VPOP(t) => InstructionView::Unary(Keyword::VPOP, t@),
            Instruction::CALL(t) => InstructionView::Unary(Keyword::CALL, t@),
            Instruction::JMP(t) => InstructionView::Unary(Keyword::JMP, t@),
            Instruction::JG(t) => InstructionView::Unary(Keyword::JG, t@),
            Instruction::JNG(t) => InstructionView::Unary(Keyword::JNG, t@),
            Instruction::JL(t) => InstructionView::Unary(Keyword::JL, t@),
            Instruction::JNL(t) => InstructionView::Unary(Keyword::JNL, t@),
            Instruction::JE(t) => InstructionView::Unary(Keyword::JE, t@),
            Instruction::JNE(t) => InstructionView::Unary(Keyword::JNE, t@),
            Instruction::EXTI(t) => InstructionView::Unary(Keyword::EXTI, t@),
            Instruction::ADD(l, r) => InstructionView::Binary(Keyword::ADD, l@, r@),
            Instruction::SUB(l, r) => InstructionView::Binary(Keyword::SUB, l@, r@),
            Instruction::MUL(l, r) => InstructionView::Binary(Keyword::MUL, l@, r@),
            Instruction::DIV(l, r) => InstructionView::Binary(Keyword::DIV, l@, r@),
            Instruction::MOD(l, r) => InstructionView::Binary(Keyword::MOD, l@, r@),
            Instruction::SMUL(l, r) => InstructionView::Binary(Keyword::SMUL, l@, r@),
            Instruction::SDIV(l, r) => InstructionView::Binary(Keyword::SDIV, l@, r@),
            Instruction::SMOD(l, r) => InstructionView::Binary(Keyword::SMOD, l@, r@),
            Instruction::AND(l, r) => InstructionView::Binary(Keyword::AND, l@, r@),
            Instruction::OR(l, r) => InstructionView::Binary(Keyword::OR, l@, r@),
            Instruction::XOR(l, r) => InstructionView::Binary(Keyword::XOR, l@, r@),
            Instruction::SHL(l, r) => InstructionView::Binary(Keyword::SHL, l@, r@),
            Instruction::SHR(l, r) => InstructionView::Binary(Keyword::SHR, l@, r@),
            Instruction::SAR(l, r) => InstructionView::Binary(Keyword::SAR, l@, r@),
            Instruction::SET(l, r) => InstructionView::Binary(Keyword::SET, l@, r@),
            Instruction::GET(l, r) => InstructionView::Binary(Keyword::GET, l@, r@),
            Instruction::SWAP(l, r) => InstructionView::Binary(Keyword::SWAP, l@, r@),
            Instruction::CMP(l, r) => InstructionView::Binary(Keyword::CMP, l@, r@),
        }
    }
}

/// An instruction taken apart by shape, borrowing its payload.
pub enum Parts<'a> {
    Const(&'a String, u16),
    Mark(&'a String),
    Data(&'a Vec<u16>),
    Dstr(&'a Vec<u16>),
    Nullary(Keyword),
    Unary(Keyword, &'a Target),
    Binary(Keyword, &'a Target, &'a Target),
}

impl<'a> View for Parts<'a> {
    type V = InstructionView;

    open spec fn view(&self) -> InstructionView {
        match self {
            Parts::Const(name, value) => InstructionView::Const(name@, *value),
            Parts::Mark(name) => InstructionView::Mark(name@),
            Parts::Data(data) => InstructionView::Data(data@),
            Parts::Dstr(data) => InstructionView::Dstr(data@),
            Parts::Nullary(keyword) => InstructionView::Nullary(*keyword),
            Parts::Unary(keyword, target) => InstructionView::Unary(*keyword, target@),
            Parts::Binary(keyword, lhs, rhs) => InstructionView::Binary(*keyword, lhs@, rhs@),
        }
    }
}

impl Instruction {
    /// The instruction by shape: its mnemonic and its operands, or the
    /// payload of a pseudo-operation.
    pub fn parts(&self) -> (parts: Parts<'_>)
        ensures
            parts@ == self@,
            parts@.well_formed(),
    {
        match self {
            Instruction::CONST(name, value) => Parts::Const(name, *value),
            Instruction::MARK(name) => Parts::Mark(name),
            Instruction::DATA(data) => Parts::Data(data),
            Instruction::DSTR(data) => Parts::Dstr(data),
            Instruction::HALT => Parts::Nullary(Keyword::HALT),
            Instruction::NOP => Parts::Nullary(Keyword::NOP),
            Instruction::RET => Parts::Nullary(Keyword::RET),
            Instruction::NEG(t) => Parts::Unary(Keyword::NEG, t),
            Instruction::NOT(t) => Parts::Unary(Keyword::NOT, t),
            Instruction::PUSH(t) => Parts::Unary(Keyword::PUSH, t),
            Instruction::POP(t) => Parts::Unary(Keyword::POP, t),
            Instruction::VPUSH(t) => Parts::Unary(Keyword::VPUSH, t),
            Instruction::VPOP(t) => Parts::Unary(Keyword::VPOP, t),
            Instruction::CALL(t) => Parts::Unary(Keyword::CALL, t),
            Instruction::JMP(t) => Parts::Unary(Keyword::JMP, t),
            Instruction::JG(t) => Parts::Unary(Keyword::JG, t),
            Instruction::JNG(t) => Parts::Unary(Keyword::JNG, t),
            Instruction::JL(t) => Parts::Unary(Keyword::JL, t),
            Instruction::JNL(t) => Parts::Unary(Keyword::JNL, t),
            Instruction::JE(t) => Parts::Unary(Keyword::JE, t),
            Instruction::JNE(t) => Parts::Unary(Keyword::JNE, t),
            Instruction::EXTI(t) => Parts::Unary(Keyword::EXTI, t),
            Instruction::ADD(l, r) => Parts::Binary(Keyword::ADD, l, r),
            Instruction::SUB(l, r) => Parts::Binary(Keyword::SUB, l, r),
            Instruction::MUL(l, r) => Parts::Binary(Keyword::MUL, l, r),
            Instruction::DIV(l, r) => Parts::Binary(Keyword::DIV, l, r),
            Instruction::MOD(l, r) => Parts::Binary(Keyword::MOD, l, r),
            Instruction::SMUL(l, r) => Parts::Binary(Keyword::SMUL, l, r),
            Instruction::SDIV(l, r) => Parts::Binary(Keyword::SDIV, l, r),
            Instruction::SMOD(l, r) => Parts::Binary(Keyword::SMOD, l, r),
            Instruction::AND(l, r) => Parts::Binary(Keyword::AND, l, r),
            Instruction::OR(l, r) => Parts::Binary(Keyword::OR, l, r),
            Instruction::XOR(l, r) => Parts::Binary(Keyword::XOR, l, r),
            Instruction::SHL(l, r) => Parts::Binary(Keyword::SHL, l, r),
            Instruction::SHR(l, r) => Parts::Binary(Keyword::SHR, l, r),
            Instruction::SAR(l, r) => Parts::Binary(Keyword::SAR, l, r),
            Instruction::SET(l, r) => Parts::Binary(Keyword::SET, l, r),
            Instruction::GET(l, r) => Parts::Binary(Keyword::GET, l, r),
            Instruction::SWAP(l, r) => Parts::Binary(Keyword::SWAP, l, r),
            Instruction::CMP(l, r) => Parts::Binary(Keyword::CMP, l, r),
        }
    }
}

impl InstructionView {
    /// The mnemonic fits the number of operands. Every view of an
    /// [`Instruction`] is well formed.
    pub open spec fn well_formed(self) -> bool {
        match self {
            InstructionView::Nullary(keyword) => keyword.shape() == Shape::Nullary,
            InstructionView::Unary(keyword, _) => keyword.shape() == Shape::Unary,
            InstructionView::Binary(keyword, _, _) => keyword.shape() == Shape::Binary,
            _ => true,
        }
    }
}

impl Clone for Literal {
    fn clone(&self) -> (copy: Self)
        ensures
            copy@ == self@,
    {
        match self {
            Literal::Number(value) => Literal::Number(*value),
            Literal::Identifier(negative, name) => Literal::Identifier(*negative, name.clone()),
        }
    }
}

impl Clone for FromMem {
    fn clone(&self) -> (copy: Self)
        ensures
            copy@ == self@,
    {
        match self {
            FromMem::Register(reg) => FromMem::Register(*reg),
            FromMem::RegisterLiteral(reg, literal) => FromMem::RegisterLiteral(
                *reg,
                literal.clone(),
            ),
            FromMem::TwoRegister(lhs, subtract, rhs) => FromMem::TwoRegister(
                *lhs,
                *subtract,
                *rhs,
            ),
            FromMem::TwoRegisterLiteral(lhs, subtract, rhs, literal) => {
                FromMem::TwoRegisterLiteral(*lhs, *subtract, *rhs, literal.clone())
            },
        }
    }
}

/// A number under a sign: the number itself, or its sixteen-bit two's
/// complement where the sign is minus.
pub open spec fn spec_signed_number(negative: bool, number: u16) -> u16 {
    if negative && number != 0 {
        (0x10000 - number) as u16
    } else {
        number
    }
}

/// Applies a sign to a number in sixteen-bit two's complement.
pub fn signed_number(negative: bool, number: u16) -> (value: u16)
    ensures
        value == spec_signed_number(negative, number),
{
    if negative {
        0u16.wrapping_sub(number)
    } else {
        number
    }
}

/// Whether the text of a sign is the minus sign.
pub open spec fn spec_is_minus(text: Seq<char>) -> bool {
    text == seq!['-']
}

/// The number that follows the sign at `pos`, under that sign, and the
/// position after it.
pub open spec fn spec_assemble_signed_number(
    tokens: Seq<LexemeView>,
    pos: int,
    context: Context,
) -> Result<(u16, int), SyntaxError> {
    if pos < 0 || pos + 1 >= tokens.len() {
        Err(
            SyntaxError::UnexpectedEnd {
                context: Context::SignedNumber,
                expected: Expected::Number,
            },
        )
    } else {
        match tokens[pos + 1].token {
            Token::Number(number) => Ok(
                (spec_signed_number(spec_is_minus(tokens[pos].text), number), pos + 2),
            ),
            found => Err(
                SyntaxError::UnexpectedToken {
                    context,
                    expected: Expected::Number,
                    found,
                    position: (pos + 1) as usize,
                },
            ),
        }
    }
}

/// The number at `pos`, plain or signed, and the position after it.
pub open spec fn spec_number_at(tokens: Seq<LexemeView>, pos: int, context: Context) -> Result<
    (u16, int),
    SyntaxError,
> {
    if pos < 0 || pos >= tokens.len() {
        Err(SyntaxError::UnexpectedEnd { context, expected: Expected::Number })
    } else {
        match tokens[pos].token {
            Token::Number(number) => Ok((number, pos + 1)),
            Token::Operator => spec_assemble_signed_number(tokens, pos, context),
            found => Err(
                SyntaxError::UnexpectedToken {
                    context,
                    expected: Expected::Number,
                    found,
                    position: pos as usize,
                },
            ),
        }
    }
}

/// Whether a number, plain or signed, starts at `pos`.
pub open spec fn spec_starts_number(tokens: Seq<LexemeView>, pos: int) -> bool {
    0 <= pos < tokens.len() && (tokens[pos].token is Number || tokens[pos].token is Operator)
}

/// The identifier at `pos`.
pub open spec fn spec_identifier_at(tokens: Seq<LexemeView>, pos: int, context: Context) -> Result<
    Seq<char>,
    SyntaxError,
> {
    if pos < 0 || pos >= tokens.len() {
        Err(SyntaxError::UnexpectedEnd { context, expected: Expected::Identifier })
    } else {
        match tokens[pos].token {
            Token::Identifier => Ok(tokens[pos].text),
            found => Err(
                SyntaxError::UnexpectedToken {
                    context,
                    expected: Expected::Identifier,
                    found,
                    position: pos as usize,
                },
            ),
        }
    }
}

/// `CONST <identifier> <number>`, read from the token after the mnemonic.
pub open spec fn spec_assemble_const(tokens: Seq<LexemeView>, pos: int) -> Result<
    (InstructionView, int),
    SyntaxError,
> {
    match spec_identifier_at(tokens, pos, Context::Const) {
        Err(error) => Err(error),
        Ok(name) => match spec_number_at(tokens, pos + 1, Context::Const) {
            Err(error) => Err(error),
            Ok((value, next)) => Ok((InstructionView::Const(name, value), next)),
        },
    }
}

/// `MARK <identifier>`, read from the token after the mnemonic.
pub open spec fn spec_assemble_mark(tokens: Seq<LexemeView>, pos: int) -> Result<
    (InstructionView, int),
    SyntaxError,
> {
    match spec_identifier_at(tokens, pos, Context::Mark) {
        Err(error) => Err(error),
        Ok(name) => Ok((InstructionView::Mark(name), pos + 1)),
    }
}

/// The numbers that stand in a row from `pos` on, and the position of
/// the first token that starts no number. A sign that no number follows
/// is an error.
pub open spec fn spec_data_values(tokens: Seq<LexemeView>, pos: int) -> Result<
    (Seq<u16>, int),
    SyntaxError,
>
    decreases tokens.len() - pos,
{
    if spec_starts_number(tokens, pos) {
        match spec_number_at(tokens, pos, Context::Data) {
            Err(error) => Err(error),
            Ok((value, next)) => if next > pos {
                match spec_data_values(tokens, next) {
                    Err(error) => Err(error),
                    Ok((rest, end)) => Ok((seq![value] + rest, end)),
                }
            } else {
                Ok((seq![value], next))
            },
        }
    } else {
        Ok((seq![], pos))
    }
}

/// `DATA <numbers>`, read from the token after the mnemonic.
pub open spec fn spec_assemble_data(tokens: Seq<LexemeView>, pos: int) -> Result<
    (InstructionView, int),
    SyntaxError,
> {
    match spec_data_values(tokens, pos) {
        Err(error) => Err(error),
        Ok((values, next)) => Ok((InstructionView::Data(values), next)),
    }
}

/// The words of a string literal: one for each character between the
/// two quotes, holding the character's code modulo 2^16.
pub open spec fn spec_decompile_string(string: Seq<char>) -> Seq<u16> {
    Seq::new((string.len() - 2) as nat, |i: int| ((string[i + 1] as u32) % 0x10000) as u16)
}

/// The words with their high byte replaced by the low byte of `tag`.
pub open spec fn spec_tag_words(words: Seq<u16>, tag: u16) -> Seq<u16> {
    Seq::new(words.len(), |i: int| (words[i] % 256 + 256 * (tag % 256)) as u16)
}

/// `DSTR <string> [<number>]`, read from the token after the mnemonic.
pub open spec fn spec_assemble_dstr(tokens: Seq<LexemeView>, pos: int) -> Result<
    (InstructionView, int),
    SyntaxError,
> {
    if pos < 0 || pos >= tokens.len() {
        Err(SyntaxError::UnexpectedEnd { context: Context::Dstr, expected: Expected::String })
    } else {
        match tokens[pos].token {
            Token::String => {
                let words = spec_decompile_string(tokens[pos].text);
                if spec_starts_number(tokens, pos + 1) {
                    match spec_number_at(tokens, pos + 1, Context::Dstr) {
                        Err(error) => Err(error),
                        Ok((tag, next)) => Ok(
                            (InstructionView::Dstr(spec_tag_words(words, tag)), next),
                        ),
                    }
                } else {
                    Ok((InstructionView::Dstr(words), pos + 1))
                }
            },
            found => Err(
                SyntaxError::UnexpectedToken {
                    context: Context::Dstr,
                    expected: Expected::String,
                    found,
                    position: pos as usize,
                },
            ),
        }
    }
}

/// Whether the text of a sign is the minus sign.
fn is_minus(text: &str) -> (b: bool)
    ensures
        b == spec_is_minus(text@),
{
    if text.unicode_len() == 1 {
        let c: char = text.get_char(0);
        assert(text@ =~= seq![c]);
        c == '-'
    } else {
        false
    }
}

/// Reads the number that follows the sign at `position`, and applies the
/// sign to it: minus where the sign's text is `-`, plus otherwise.
pub fn assemble_signed_number(tokens: &Vec<Lexeme>, position: usize, context: Context) -> (result:
    Result<(u16, usize), SyntaxError>)
    ensures
        match result {
            Ok((value, next)) => spec_assemble_signed_number(
                lexemes_view(tokens@),
                position as int,
                context,
            ) == Ok::<(u16, int), SyntaxError>((value, next as int)) && next == position + 2
                && next <= tokens@.len(),
            Err(error) => spec_assemble_signed_number(
                lexemes_view(tokens@),
                position as int,
                context,
            ) == Err::<(u16, int), SyntaxError>(error),
        },
{
    let length: usize = tokens.len();
    if position >= length || position + 1 >= length {
        return Err(
            SyntaxError::UnexpectedEnd {
                context: Context::SignedNumber,
                expected: Expected::Number,
            },
        );
    }
    let negative: bool = is_minus(tokens[position].text());
    match tokens[position + 1].token() {
        Token::Number(number) => Ok((signed_number(negative, number), position + 2)),
        found => Err(
            SyntaxError::UnexpectedToken {
                context,
                expected: Expected::Number,
                found,
                position: position + 1,
            },
        ),
    }
}

/// Reads the number at `position`, plain or signed.
pub fn assemble_number(tokens: &Vec<Lexeme>, position: usize, context: Context) -> (result: Result<
    (u16, usize),
    SyntaxError,
>)
    ensures
        match result {
            Ok((value, next)) => spec_number_at(lexemes_view(tokens@), position as int, context)
                == Ok::<(u16, int), SyntaxError>((value, next as int)) && position < next
                <= tokens@.len(),
            Err(error) => spec_number_at(lexemes_view(tokens@), position as int, context) == Err::<
                (u16, int),
                SyntaxError,
            >(error),
        },
{
    if position >= tokens.len() {
        return Err(SyntaxError::UnexpectedEnd { context, expected: Expected::Number });
    }
    match tokens[position].token() {
        Token::Number(number) => Ok((number, position + 1)),
        Token::Operator => assemble_signed_number(tokens, position, context),
        found => Err(
            SyntaxError::UnexpectedToken { context, expected: Expected::Number, found, position },
        ),
    }
}

/// Whether a number, plain or signed, starts at `position`.
fn starts_number(tokens: &Vec<Lexeme>, position: usize) -> (b: bool)
    ensures
        b == spec_starts_number(lexemes_view(tokens@), position as int),
{
    if position < tokens.len() {
        match tokens[position].token() {
            Token::Number(_) => true,
            Token::Operator => true,
            _ => false,
        }
    } else {
        false
    }
}

/// Reads the identifier at `position`.
fn assemble_identifier(tokens: &Vec<Lexeme>, position: usize, context: Context) -> (result: Result<
    String,
    SyntaxError,
>)
    ensures
        match result {
            Ok(name) => spec_identifier_at(lexemes_view(tokens@), position as int, context) == Ok::<
                Seq<char>,
                SyntaxError,
            >(name@) && position < tokens@.len(),
            Err(error) => spec_identifier_at(lexemes_view(tokens@), position as int, context)
                == Err::<Seq<char>, SyntaxError>(error),
        },
{
    if position >= tokens.len() {
        return Err(SyntaxError::UnexpectedEnd { context, expected: Expected::Identifier });
    }
    match tokens[position].token() {
        Token::Identifier => Ok(tokens[position].text().to_owned()),
        found => Err(
            SyntaxError::UnexpectedToken {
                context,
                expected: Expected::Identifier,
                found,
                position,
            },
        ),
    }
}

/// Reads the tail of a `CONST` statement: a name and its value.
#[allow(non_snake_case)]
pub fn assemble_CONST(tokens: &Vec<Lexeme>, position: usize) -> (result: Result<
    (Instruction, usize),
    SyntaxError,
>)
    ensures
        match result {
            Ok((instruction, next)) => spec_assemble_const(lexemes_view(tokens@), position as int)
                == Ok::<(InstructionView, int), SyntaxError>((instruction@, next as int))
                && position < next <= tokens@.len(),
            Err(error) => spec_assemble_const(lexemes_view(tokens@), position as int) == Err::<
                (InstructionView, int),
                SyntaxError,
            >(error),
        },
{
    let length: usize = tokens.len();
    match assemble_identifier(tokens, position, Context::Const) {
        Err(error) => Err(error),
        Ok(name) => match assemble_number(tokens, position + 1, Context::Const) {
            Err(error) => Err(error),
            Ok((value, next)) => Ok((Instruction::CONST(name, value), next)),
        },
    }
}

/// Reads the tail of a `MARK` statement: a name.
#[allow(non_snake_case)]
pub fn assemble_MARK(tokens: &Vec<Lexeme>, position: usize) -> (result: Result<
    (Instruction, usize),
    SyntaxError,
>)
    ensures
        match result {
            Ok((instruction, next)) => spec_assemble_mark(lexemes_view(tokens@), position as int)
                == Ok::<(InstructionView, int), SyntaxError>((instruction@, next as int))
                && position < next <= tokens@.len(),
            Err(error) => spec_assemble_mark(lexemes_view(tokens@), position as int) == Err::<
                (InstructionView, int),
                SyntaxError,
            >(error),
        },
{
    let length: usize = tokens.len();
    match assemble_identifier(tokens, position, Context::Mark) {
        Err(error) => Err(error),
        Ok(name) => Ok((Instruction::MARK(name), position + 1)),
    }
}

/// Reads the tail of a `DATA` statement: every number up to the first
/// token that starts none. That token is left for the next statement.
#[allow(non_snake_case)]
pub fn assemble_DATA(tokens: &Vec<Lexeme>, position: usize) -> (result: Result<
    (Instruction, usize),
    SyntaxError,
>)
    ensures
        match result {
            Ok((instruction, next)) => spec_assemble_data(lexemes_view(tokens@), position as int)
                matches Ok((expected, end)) && instruction@ == expected && next == end
                && position <= next && (next <= tokens@.len() || next == position),
            Err(error) => spec_assemble_data(lexemes_view(tokens@), position as int) == Err::<
                (InstructionView, int),
                SyntaxError,
            >(error),
        },
{
    let ghost view = lexemes_view(tokens@);
    let mut values: Vec<u16> = Vec::new();
    let mut at: usize = position;
    while starts_number(tokens, at)
        invariant
            view == lexemes_view(tokens@),
            position <= at,
            at <= tokens@.len() || at == position,
            spec_data_values(view, position as int) == (match spec_data_values(view, at as int) {
                Err(error) => Err(error),
                Ok((rest, end)) => Ok((values@ + rest, end)),
            }),
        decreases tokens@.len() - at,
    {
        match assemble_number(tokens, at, Context::Data) {
            Err(error) => {
                return Err(error);
            },
            Ok((value, next)) => {
                proof {
                    match spec_data_values(view, next as int) {
                        Ok((rest, end)) => {
                            assert(values@ + (seq![value] + rest) == values@.push(value) + rest);
                        },
                        Err(_) => {},
                    }
                }
                values.push(value);
                at = next;
            },
        }
    }
    proof {
        assert(values@ + Seq::<u16>::empty() == values@);
    }
    Ok((Instruction::DATA(values), at))
}

/// The words of a string literal: its characters without the two quotes.
/// Nothing is unescaped: a backslash is a character like any other.
pub fn decompile_string(string: &str) -> (values: Vec<u16>)
    requires
        string@.len() >= 2,
    ensures
        values@ == spec_decompile_string(string@),
{
    let chars: Vec<char> = to_chars(string);
    let mut values: Vec<u16> = Vec::new();
    let mut i: usize = 1;
    while i < chars.len() - 1
        invariant
            chars@ == string@,
            chars@.len() >= 2,
            1 <= i <= chars@.len() - 1,
            values@.len() == i - 1,
            forall|j: int|
                0 <= j < i - 1 ==> #[trigger] values@[j] == ((string@[j + 1] as u32)
                    % 0x10000) as u16,
        decreases chars@.len() - i,
    {
        let code: u32 = chars[i] as u32;
        assert(code & 0xFFFF == code % 0x10000) by (bit_vector);
        values.push((code & 0xFFFF) as u16);
        i += 1;
    }
    values
}

/// Replaces the high byte of every word by the low byte of `tag`.
fn tag_words(values: &mut Vec<u16>, tag: u16)
    ensures
        final(values)@ == spec_tag_words(old(values)@, tag),
{
    let mut i: usize = 0;
    while i < values.len()
        invariant
            i <= values@.len(),
            values@.len() == old(values)@.len(),
            forall|j: int|
                0 <= j < i ==> #[trigger] values@[j] == (old(values)@[j] % 256 + 256 * (tag
                    % 256)) as u16,
            forall|j: int| i <= j < values@.len() ==> #[trigger] values@[j] == old(values)@[j],
        decreases values@.len() - i,
    {
        let value: u16 = values[i];
        assert(((value & 0x00FF) | (tag << 8)) == value % 256 + 256 * (tag % 256))
            by (bit_vector);
        values.set(i, (value & 0x00FF) | (tag << 8));
        i += 1;
    }
}

/// Reads the tail of a `DSTR` statement: a string literal, and the number
/// after it if there is one. With a number, its low byte becomes the high
/// byte of every word.
#[allow(non_snake_case)]
pub fn assemble_DSTR(tokens: &Vec<Lexeme>, position: usize) -> (result: Result<
    (Instruction, usize),
    SyntaxError,
>)
    ensures
        match result {
            Ok((instruction, next)) => spec_assemble_dstr(lexemes_view(tokens@), position as int)
                matches Ok((expected, end)) && instruction@ == expected && next == end
                && position < next <= tokens@.len(),
            Err(error) => spec_assemble_dstr(lexemes_view(tokens@), position as int) == Err::<
                (InstructionView, int),
                SyntaxError,
            >(error),
        },
{
    if position >= tokens.len() {
        return Err(
            SyntaxError::UnexpectedEnd { context: Context::Dstr, expected: Expected::String },
        );
    }
    match tokens[position].token() {
        Token::String => {
            let mut values: Vec<u16> = decompile_string(tokens[position].text());
            if starts_number(tokens, position + 1) {
                match assemble_number(tokens, position + 1, Context::Dstr) {
                    Err(error) => Err(error),
                    Ok((tag, next)) => {
                        tag_words(&mut values, tag);
                        Ok((Instruction::DSTR(values), next))
                    },
                }
            } else {
                Ok((Instruction::DSTR(values), position + 1))
            }
        },
        found => Err(
            SyntaxError::UnexpectedToken {
                context: Context::Dstr,
                expected: Expected::String,
                found,
                position,
            },
        ),
    }
}

/// The close bracket that must stand at `pos`.
pub open spec fn spec_expect_close_bracket(tokens: Seq<LexemeView>, pos: int) -> Result<
    (),
    SyntaxError,
> {
    if pos < 0 || pos >= tokens.len() {
        Err(
            SyntaxError::UnexpectedEnd {
                context: Context::FromMem,
                expected: Expected::CloseBracket,
            },
        )
    } else {
        match tokens[pos].token {
            Token::CloseBracket => Ok(()),
            found => Err(
                SyntaxError::UnexpectedToken {
                    context: Context::FromMem,
                    expected: Expected::CloseBracket,
                    found,
                    position: pos as usize,
                },
            ),
        }
    }
}

/// What stands at `pos` inside a memory operand after a register: the
/// close bracket (`None`), or a sign (`Some`, `true` for minus).
pub open spec fn spec_sign_or_close(tokens: Seq<LexemeView>, pos: int) -> Result<
    Option<bool>,
    SyntaxError,
> {
    if pos < 0 || pos >= tokens.len() {
        Err(
            SyntaxError::UnexpectedEnd {
                context: Context::FromMem,
                expected: Expected::OperatorOrCloseBracket,
            },
        )
    } else {
        match tokens[pos].token {
            Token::CloseBracket => Ok(None),
            Token::Operator => Ok(Some(spec_is_minus(tokens[pos].text))),
            found => Err(
                SyntaxError::UnexpectedToken {
                    context: Context::FromMem,
                    expected: Expected::OperatorOrCloseBracket,
                    found,
                    position: pos as usize,
                },
            ),
        }
    }
}

/// The offset at `pos` inside a memory operand, under the sign
/// `negative`: a number, to which the sign is applied at once, or a name,
/// which keeps the sign for the second pass.
pub open spec fn spec_offset_at(tokens: Seq<LexemeView>, pos: int, negative: bool) -> Result<
    LiteralView,
    SyntaxError,
> {
    if pos < 0 || pos >= tokens.len() {
        Err(
            SyntaxError::UnexpectedEnd {
                context: Context::FromMem,
                expected: Expected::NumberOrIdentifier,
            },
        )
    } else {
        match tokens[pos].token {
            Token::Number(number) => Ok(LiteralView::Number(spec_signed_number(negative, number))),
            Token::Identifier => Ok(LiteralView::Identifier(negative, tokens[pos].text)),
            found => Err(
                SyntaxError::UnexpectedToken {
                    context: Context::FromMem,
                    expected: Expected::NumberOrIdentifier,
                    found,
                    position: pos as usize,
                },
            ),
        }
    }
}

/// What follows the first register and its sign `first_sign` inside a
/// memory operand; `pos` is the position after that sign.
///
/// An offset closes the operand as `[reg±lit]`. A second register makes
/// it `[reg±reg]`, whose flag is the first sign, or, with a second sign
/// and an offset, `[reg±reg±lit]`, whose flag is the second sign while
/// the first sign goes to the offset.
pub open spec fn spec_from_mem_tail(
    tokens: Seq<LexemeView>,
    pos: int,
    first: Register,
    first_sign: bool,
) -> Result<(FromMemView, int), SyntaxError> {
    if pos < 0 || pos >= tokens.len() {
        Err(
            SyntaxError::UnexpectedEnd {
                context: Context::FromMem,
                expected: Expected::RegisterNumberOrIdentifier,
            },
        )
    } else {
        match tokens[pos].token {
            Token::Register(second) => match spec_sign_or_close(tokens, pos + 1) {
                Err(error) => Err(error),
                Ok(None) => Ok((FromMemView::TwoRegister(first, first_sign, second), pos + 2)),
                Ok(Some(second_sign)) => match spec_offset_at(tokens, pos + 2, first_sign) {
                    Err(error) => Err(error),
                    Ok(offset) => match spec_expect_close_bracket(tokens, pos + 3) {
                        Err(error) => Err(error),
                        Ok(()) => Ok(
                            (
                                FromMemView::TwoRegisterLiteral(first, second_sign, second, offset),
                                pos + 4,
                            ),
                        ),
                    },
                },
            },
            Token::Number(_) | Token::Identifier => match spec_offset_at(tokens, pos, first_sign) {
                Err(error) => Err(error),
                Ok(offset) => match spec_expect_close_bracket(tokens, pos + 1) {
                    Err(error) => Err(error),
                    Ok(()) => Ok((FromMemView::RegisterLiteral(first, offset), pos + 2)),
                },
            },
            found => Err(
                SyntaxError::UnexpectedToken {
                    context: Context::FromMem,
                    expected: Expected::RegisterNumberOrIdentifier,
                    found,
                    position: pos as usize,
                },
            ),
        }
    }
}

/// The memory operand whose open bracket stands before `pos`, and the
/// position after its close bracket.
pub open spec fn spec_assemble_from_mem(tokens: Seq<LexemeView>, pos: int) -> Result<
    (FromMemView, int),
    SyntaxError,
> {
    if pos < 0 || pos >= tokens.len() {
        Err(SyntaxError::UnexpectedEnd { context: Context::FromMem, expected: Expected::Register })
    } else {
        match tokens[pos].token {
            Token::Register(first) => match spec_sign_or_close(tokens, pos + 1) {
                Err(error) => Err(error),
                Ok(None) => Ok((FromMemView::Register(first), pos + 2)),
                Ok(Some(first_sign)) => spec_from_mem_tail(tokens, pos + 2, first, first_sign),
            },
            found => Err(
                SyntaxError::UnexpectedToken {
                    context: Context::FromMem,
                    expected: Expected::Register,
                    found,
                    position: pos as usize,
                },
            ),
        }
    }
}

/// What the grammar calls for where an operand starts.
pub open spec fn spec_operand_expected(secondary: bool) -> Expected {
    if secondary {
        Expected::RegisterOrLiteral
    } else {
        Expected::Operand
    }
}

/// The operand at `pos` and the position after it. In second position
/// (`secondary`) a memory operand is refused. A bare name is a literal
/// without a sign.
pub open spec fn spec_get_next_operand(
    tokens: Seq<LexemeView>,
    pos: int,
    secondary: bool,
) -> Result<(TargetView, int), SyntaxError> {
    if pos < 0 || pos >= tokens.len() {
        Err(
            SyntaxError::UnexpectedEnd {
                context: Context::Operand,
                expected: spec_operand_expected(secondary),
            },
        )
    } else {
        match tokens[pos].token {
            Token::Number(value) => Ok((TargetView::Literal(LiteralView::Number(value)), pos + 1)),
            Token::Operator => match spec_assemble_signed_number(tokens, pos, Context::Operand) {
                Err(error) => Err(error),
                Ok((value, next)) => Ok((TargetView::Literal(LiteralView::Number(value)), next)),
            },
            Token::Identifier => Ok(
                (TargetView::Literal(LiteralView::Identifier(false, tokens[pos].text)), pos + 1),
            ),
            Token::Register(register) => Ok((TargetView::Register(register), pos + 1)),
            Token::OpenBracket => if secondary {
                Err(SyntaxError::SecondOperandFromMem)
            } else {
                match spec_assemble_from_mem(tokens, pos + 1) {
                    Err(error) => Err(error),
                    Ok((from_mem, next)) => Ok((TargetView::FromMem(from_mem), next)),
                }
            },
            found => Err(
                SyntaxError::UnexpectedToken {
                    context: Context::Operand,
                    expected: spec_operand_expected(secondary),
                    found,
                    position: pos as usize,
                },
            ),
        }
    }
}

/// Requires the close bracket at `position`.
pub fn expect_close_bracket(tokens: &Vec<Lexeme>, position: usize) -> (result: Result<
    (),
    SyntaxError,
>)
    ensures
        result == spec_expect_close_bracket(lexemes_view(tokens@), position as int),
        result is Ok ==> position < tokens@.len(),
{
    if position >= tokens.len() {
        return Err(
            SyntaxError::UnexpectedEnd {
                context: Context::FromMem,
                expected: Expected::CloseBracket,
            },
        );
    }
    match tokens[position].token() {
        Token::CloseBracket => Ok(()),
        found => Err(
            SyntaxError::UnexpectedToken {
                context: Context::FromMem,
                expected: Expected::CloseBracket,
                found,
                position,
            },
        ),
    }
}

/// Reads the close bracket or the sign at `position`.
fn sign_or_close(tokens: &Vec<Lexeme>, position: usize) -> (result: Result<
    Option<bool>,
    SyntaxError,
>)
    ensures
        result == spec_sign_or_close(lexemes_view(tokens@), position as int),
        result is Ok ==> position < tokens@.len(),
{
    if position >= tokens.len() {
        return Err(
            SyntaxError::UnexpectedEnd {
                context: Context::FromMem,
                expected: Expected::OperatorOrCloseBracket,
            },
        );
    }
    match tokens[position].token() {
        Token::CloseBracket => Ok(None),
        Token::Operator => Ok(Some(is_minus(tokens[position].text()))),
        found => Err(
            SyntaxError::UnexpectedToken {
                context: Context::FromMem,
                expected: Expected::OperatorOrCloseBracket,
                found,
                position,
            },
        ),
    }
}

/// Reads the offset at `position` under the sign `negative`.
fn offset_at(tokens: &Vec<Lexeme>, position: usize, negative: bool) -> (result: Result<
    Literal,
    SyntaxError,
>)
    ensures
        match result {
            Ok(literal) => spec_offset_at(lexemes_view(tokens@), position as int, negative) == Ok::<
                LiteralView,
                SyntaxError,
            >(literal@) && position < tokens@.len(),
            Err(error) => spec_offset_at(lexemes_view(tokens@), position as int, negative) == Err::<
                LiteralView,
                SyntaxError,
            >(error),
        },
{
    if position >= tokens.len() {
        return Err(
            SyntaxError::UnexpectedEnd {
                context: Context::FromMem,
                expected: Expected::NumberOrIdentifier,
            },
        );
    }
    match tokens[position].token() {
        Token::Number(number) => Ok(Literal::Number(signed_number(negative, number))),
        Token::Identifier => Ok(Literal::Identifier(negative, tokens[position].text().to_owned())),
        found => Err(
            SyntaxError::UnexpectedToken {
                context: Context::FromMem,
                expected: Expected::NumberOrIdentifier,
                found,
                position,
            },
        ),
    }
}

/// Reads what follows the first register and its sign.
fn from_mem_tail(
    tokens: &Vec<Lexeme>,
    position: usize,
    first: Register,
    first_sign: bool,
) -> (result: Result<(FromMem, usize), SyntaxError>)
    ensures
        match result {
            Ok((from_mem, next)) => spec_from_mem_tail(
                lexemes_view(tokens@),
                position as int,
                first,
                first_sign,
            ) == Ok::<(FromMemView, int), SyntaxError>((from_mem@, next as int)) && position < next
                <= tokens@.len(),
            Err(error) => spec_from_mem_tail(
                lexemes_view(tokens@),
                position as int,
                first,
                first_sign,
            ) == Err::<(FromMemView, int), SyntaxError>(error),
        },
{
    let length: usize = tokens.len();
    if position >= length {
        return Err(
            SyntaxError::UnexpectedEnd {
                context: Context::FromMem,
                expected: Expected::RegisterNumberOrIdentifier,
            },
        );
    }
    match tokens[position].token() {
        Token::Register(second) => match sign_or_close(tokens, position + 1) {
            Err(error) => Err(error),
            Ok(None) => Ok((FromMem::TwoRegister(first, first_sign, second), position + 2)),
            Ok(Some(second_sign)) => match offset_at(tokens, position + 2, first_sign) {
                Err(error) => Err(error),
                Ok(offset) => match expect_close_bracket(tokens, position + 3) {
                    Err(error) => Err(error),
                    Ok(()) => Ok(
                        (
                            FromMem::TwoRegisterLiteral(first, second_sign, second, offset),
                            position + 4,
                        ),
                    ),
                },
            },
        },
        Token::Number(_) | Token::Identifier => match offset_at(tokens, position, first_sign) {
            Err(error) => Err(error),
            Ok(offset) => match expect_close_bracket(tokens, position + 1) {
                Err(error) => Err(error),
                Ok(()) => Ok((FromMem::RegisterLiteral(first, offset), position + 2)),
            },
        },
        found => Err(
            SyntaxError::UnexpectedToken {
                context: Context::FromMem,
                expected: Expected::RegisterNumberOrIdentifier,
                found,
                position,
            },
        ),
    }
}

/// Reads a memory operand from the token after its open bracket.
pub fn assemble_from_mem(tokens: &Vec<Lexeme>, position: usize) -> (result: Result<
    (FromMem, usize),
    SyntaxError,
>)
    ensures
        match result {
            Ok((from_mem, next)) => spec_assemble_from_mem(lexemes_view(tokens@), position as int)
                == Ok::<(FromMemView, int), SyntaxError>((from_mem@, next as int)) && position
                < next <= tokens@.len(),
            Err(error) => spec_assemble_from_mem(lexemes_view(tokens@), position as int) == Err::<
                (FromMemView, int),
                SyntaxError,
            >(error),
        },
{
    let length: usize = tokens.len();
    if position >= length {
        return Err(
            SyntaxError::UnexpectedEnd { context: Context::FromMem, expected: Expected::Register },
        );
    }
    match tokens[position].token() {
        Token::Register(first) => match sign_or_close(tokens, position + 1) {
            Err(error) => Err(error),
            Ok(None) => Ok((FromMem::Register(first), position + 2)),
            Ok(Some(first_sign)) => from_mem_tail(tokens, position + 2, first, first_sign),
        },
        found => Err(
            SyntaxError::UnexpectedToken {
                context: Context::FromMem,
                expected: Expected::Register,
                found,
                position,
            },
        ),
    }
}

/// Reads the operand at `position`; `secondary` says that it is the
/// second operand of its instruction.
pub fn get_next_operand(tokens: &Vec<Lexeme>, position: usize, secondary: bool) -> (result: Result<
    (Target, usize),
    SyntaxError,
>)
    ensures
        match result {
            Ok((target, next)) => spec_get_next_operand(
                lexemes_view(tokens@),
                position as int,
                secondary,
            ) == Ok::<(TargetView, int), SyntaxError>((target@, next as int)) && position < next
                <= tokens@.len() && (secondary ==> !(target@ is FromMem)),
            Err(error) => spec_get_next_operand(lexemes_view(tokens@), position as int, secondary)
                == Err::<(TargetView, int), SyntaxError>(error),
        },
{
    let length: usize = tokens.len();
    let expected = if secondary {
        Expected::RegisterOrLiteral
    } else {
        Expected::Operand
    };
    if position >= length {
        return Err(SyntaxError::UnexpectedEnd { context: Context::Operand, expected });
    }
    match tokens[position].token() {
        Token::Number(value) => Ok((Target::Literal(Literal::Number(value)), position + 1)),
        Token::Operator => match assemble_signed_number(tokens, position, Context::Operand) {
            Err(error) => Err(error),
            Ok((value, next)) => Ok((Target::Literal(Literal::Number(value)), next)),
        },
        Token::Identifier => Ok(
            (
                Target::Literal(Literal::Identifier(false, tokens[position].text().to_owned())),
                position + 1,
            ),
        ),
        Token::Register(register) => Ok((Target::Register(register), position + 1)),
        Token::OpenBracket => if secondary {
            Err(SyntaxError::SecondOperandFromMem)
        } else {
            match assemble_from_mem(tokens, position + 1) {
                Err(error) => Err(error),
                Ok((from_mem, next)) => Ok((Target::FromMem(from_mem), next)),
            }
        },
        found => Err(
            SyntaxError::UnexpectedToken { context: Context::Operand, expected, found, position },
        ),
    }
}

/// The statement of mnemonic `keyword`, read from the token after the
/// mnemonic, and the position after the statement.
pub open spec fn spec_match_keyword(tokens: Seq<LexemeView>, pos: int, keyword: Keyword) -> Result<
    (InstructionView, int),
    SyntaxError,
> {
    match keyword.shape() {
        Shape::Pseudo => match keyword {
            Keyword::CONST => spec_assemble_const(tokens, pos),
            Keyword::MARK => spec_assemble_mark(tokens, pos),
            Keyword::DATA => spec_assemble_data(tokens, pos),
            _ => spec_assemble_dstr(tokens, pos),
        },
        Shape::Nullary => Ok((InstructionView::Nullary(keyword), pos)),
        Shape::Unary => match spec_get_next_operand(tokens, pos, false) {
            Err(error) => Err(error),
            Ok((target, next)) => Ok((InstructionView::Unary(keyword, target), next)),
        },
        Shape::Binary => match spec_get_next_operand(tokens, pos, false) {
            Err(error) => Err(error),
            Ok((lhs, middle)) => match spec_get_next_operand(tokens, middle, true) {
                Err(error) => Err(error),
                Ok((rhs, next)) => Ok((InstructionView::Binary(keyword, lhs, rhs), next)),
            },
        },
    }
}

/// The statement that starts at `pos` and the position after it; `None`
/// at the end of the tokens. A statement starts with a mnemonic.
pub open spec fn spec_parse(tokens: Seq<LexemeView>, pos: int) -> Result<
    Option<(InstructionView, int)>,
    SyntaxError,
> {
    if pos < 0 || pos >= tokens.len() {
        Ok(None)
    } else {
        match tokens[pos].token {
            Token::Keyword(keyword) => match spec_match_keyword(tokens, pos + 1, keyword) {
                Err(error) => Err(error),
                Ok(parsed) => Ok(Some(parsed)),
            },
            found => Err(
                SyntaxError::UnexpectedToken {
                    context: Context::Statement,
                    expected: Expected::Keyword,
                    found,
                    position: pos as usize,
                },
            ),
        }
    }
}

/// The numbers of a `DATA` statement end at or after `pos`; where one
/// was read, within the tokens.
pub proof fn lemma_data_values_bounds(tokens: Seq<LexemeView>, pos: int)
    requires
        0 <= pos,
    ensures
        spec_data_values(tokens, pos) matches Ok((values, end)) ==> pos <= end && (end
            <= tokens.len() || end == pos),
    decreases tokens.len() - pos,
{
    if spec_starts_number(tokens, pos) {
        match spec_number_at(tokens, pos, Context::Data) {
            Ok((_, next)) => {
                lemma_data_values_bounds(tokens, next);
            },
            Err(_) => {},
        }
    }
}

/// The instruction without operands of the given mnemonic.
fn nullary(keyword: Keyword) -> (instruction: Instruction)
    requires
        keyword.shape() == Shape::Nullary,
    ensures
        instruction@ == InstructionView::Nullary(keyword),
{
    match keyword {
        Keyword::HALT => Instruction::HALT,
        Keyword::NOP => Instruction::NOP,
        _ => Instruction::RET,
    }
}

/// The one-operand instruction of the given mnemonic.
fn unary(keyword: Keyword, target: Target) -> (instruction: Instruction)
    requires
        keyword.shape() == Shape::Unary,
    ensures
        instruction@ == InstructionView::Unary(keyword, target@),
{
    match keyword {
        Keyword::NEG => Instruction::NEG(target),
        Keyword::NOT => Instruction::NOT(target),
        Keyword::PUSH => Instruction::PUSH(target),
        Keyword::POP => Instruction::POP(target),
        Keyword::VPUSH => Instruction::VPUSH(target),
        Keyword::VPOP => Instruction::VPOP(target),
        Keyword::CALL => Instruction::CALL(target),
        Keyword::JMP => Instruction::JMP(target),
        Keyword::JG => Instruction::JG(target),
        Keyword::JNG => Instruction::JNG(target),
        Keyword::JL => Instruction::JL(target),
        Keyword::JNL => Instruction::JNL(target),
        Keyword::JE => Instruction::JE(target),
        Keyword::JNE => Instruction::JNE(target),
        _ => Instruction::EXTI(target),
    }
}

/// The two-operand instruction of the given mnemonic.
fn binary(keyword: Keyword, lhs: Target, rhs: Target) -> (instruction: Instruction)
    requires
        keyword.shape() == Shape::Binary,
    ensures
        instruction@ == InstructionView::Binary(keyword, lhs@, rhs@),
{
    match keyword {
        Keyword::ADD => Instruction::ADD(lhs, rhs),
        Keyword::SUB => Instruction::SUB(lhs, rhs),
        Keyword::MUL => Instruction::MUL(lhs, rhs),
        Keyword::DIV => Instruction::DIV(lhs, rhs),
        Keyword::MOD => Instruction::MOD(lhs, rhs),
        Keyword::SMUL => Instruction::SMUL(lhs, rhs),
        Keyword::SDIV => Instruction::SDIV(lhs, rhs),
        Keyword::SMOD => Instruction::SMOD(lhs, rhs),
        Keyword::AND => Instruction::AND(lhs, rhs),
        Keyword::OR => Instruction::OR(lhs, rhs),
        Keyword::XOR => Instruction::XOR(lhs, rhs),
        Keyword::SHL => Instruction::SHL(lhs, rhs),
        Keyword::SHR => Instruction::SHR(lhs, rhs),
        Keyword::SAR => Instruction::SAR(lhs, rhs),
        Keyword::SET => Instruction::SET(lhs, rhs),
        Keyword::GET => Instruction::GET(lhs, rhs),
        Keyword::SWAP => Instruction::SWAP(lhs, rhs),
        _ => Instruction::CMP(lhs, rhs),
    }
}

/// Whether a parsed statement keeps the rule of the second operand: a
/// two-operand instruction has no memory operand there.
pub open spec fn spec_second_operand_direct(instruction: InstructionView) -> bool {
    instruction matches InstructionView::Binary(_, _, rhs) ==> !(rhs is FromMem)
}

/// Reads the statement of mnemonic `keyword` from the token after the
/// mnemonic.
pub fn match_keyword(tokens: &Vec<Lexeme>, position: usize, keyword: Keyword) -> (result: Result<
    (Instruction, usize),
    SyntaxError,
>)
    ensures
        match result {
            Ok((instruction, next)) => spec_match_keyword(
                lexemes_view(tokens@),
                position as int,
                keyword,
            ) matches Ok((expected, end)) && instruction@ == expected && next == end && position
                <= next && (next <= tokens@.len() || next == position)
                && spec_second_operand_direct(instruction@),
            Err(error) => spec_match_keyword(lexemes_view(tokens@), position as int, keyword)
                == Err::<(InstructionView, int), SyntaxError>(error),
        },
{
    match keyword {
        Keyword::CONST => assemble_CONST(tokens, position),
        Keyword::MARK => assemble_MARK(tokens, position),
        Keyword::DATA => assemble_DATA(tokens, position),
        Keyword::DSTR => assemble_DSTR(tokens, position),
        Keyword::HALT | Keyword::NOP | Keyword::RET => Ok((nullary(keyword), position)),
        Keyword::NEG
        | Keyword::NOT
        | Keyword::PUSH
        | Keyword::POP
        | Keyword::VPUSH
        | Keyword::VPOP
        | Keyword::CALL
        | Keyword::JMP
        | Keyword::JG
        | Keyword::JNG
        | Keyword::JL
        | Keyword::JNL
        | Keyword::JE
        | Keyword::JNE
        | Keyword::EXTI => {
            match get_next_operand(tokens, position, false) {
                Err(error) => Err(error),
                Ok((target, next)) => Ok((unary(keyword, target), next)),
            }
        },
        _ => {
            match get_next_operand(tokens, position, false) {
                Err(error) => Err(error),
                Ok((lhs, middle)) => match get_next_operand(tokens, middle, true) {
                    Err(error) => Err(error),
                    Ok((rhs, next)) => Ok((binary(keyword, lhs, rhs), next)),
                },
            }
        },
    }
}

/// Reads the statement that starts at `position`. At the end of the
/// tokens there is none. Otherwise the statement comes back with the
/// position after it, which lies further on.
pub fn parse(tokens: &Vec<Lexeme>, position: usize) -> (result: Result<
    Option<(Instruction, usize)>,
    SyntaxError,
>)
    ensures
        match result {
            Ok(Some((instruction, next))) => spec_parse(lexemes_view(tokens@), position as int)
                matches Ok(Some((expected, end))) && instruction@ == expected && next == end
                && position < next <= tokens@.len() && spec_second_operand_direct(instruction@),
            Ok(None) => spec_parse(lexemes_view(tokens@), position as int) == Ok::<
                Option<(InstructionView, int)>,
                SyntaxError,
            >(None),
            Err(error) => spec_parse(lexemes_view(tokens@), position as int) == Err::<
                Option<(InstructionView, int)>,
                SyntaxError,
            >(error),
        },
{
    if position >= tokens.len() {
        return Ok(None);
    }
    match tokens[position].token() {
        Token::Keyword(keyword) => match match_keyword(tokens, position + 1, keyword) {
            Err(error) => Err(error),
            Ok(parsed) => Ok(Some(parsed)),
        },
        found => Err(
            SyntaxError::UnexpectedToken {
                context: Context::Statement,
                expected: Expected::Keyword,
                found,
                position,
            },
        ),
    }
}

/// Every statement from `pos` on, in order, or the first syntax error.
pub open spec fn spec_parse_from(tokens: Seq<LexemeView>, pos: int) -> Result<
    Seq<InstructionView>,
    SyntaxError,
>
    decreases tokens.len() - pos,
{
    match spec_parse(tokens, pos) {
        Err(error) => Err(error),
        Ok(None) => Ok(seq![]),
        Ok(Some((instruction, next))) => if pos < next <= tokens.len() {
            match spec_parse_from(tokens, next) {
                Err(error) => Err(error),
                Ok(rest) => Ok(seq![instruction] + rest),
            }
        } else {
            Ok(seq![instruction])
        },
    }
}

/// The statements of a whole token buffer, or its first syntax error.
pub open spec fn spec_parse_program(tokens: Seq<LexemeView>) -> Result<
    Seq<InstructionView>,
    SyntaxError,
> {
    spec_parse_from(tokens, 0)
}

/// The views of a sequence of instructions, one for one.
pub open spec fn instructions_view(instructions: Seq<Instruction>) -> Seq<InstructionView> {
    Seq::new(instructions.len(), |i: int| instructions[i]@)
}

/// Parses every statement of a token buffer. The first syntax error ends
/// the run, and no instruction is handed out.
pub fn parse_program(tokens: &Vec<Lexeme>) -> (result: Result<Vec<Instruction>, SyntaxError>)
    ensures
        match result {
            Ok(program) => spec_parse_program(lexemes_view(tokens@)) matches Ok(expected)
                && instructions_view(program@) == expected && forall|i: int|
                0 <= i < program@.len() ==> spec_second_operand_direct(
                    (#[trigger] program@[i])@,
                ),
            Err(error) => spec_parse_program(lexemes_view(tokens@)) == Err::<
                Seq<InstructionView>,
                SyntaxError,
            >(error),
        },
{
    let ghost view = lexemes_view(tokens@);
    let mut program: Vec<Instruction> = Vec::new();
    let mut position: usize = 0;
    loop
        invariant
            view == lexemes_view(tokens@),
            position <= tokens@.len(),
            forall|i: int|
                0 <= i < program@.len() ==> spec_second_operand_direct((#[trigger] program@[i])@),
            spec_parse_program(view) == (match spec_parse_from(view, position as int) {
                Err(error) => Err(error),
                Ok(rest) => Ok(instructions_view(program@) + rest),
            }),
        decreases tokens@.len() - position,
    {
        match parse(tokens, position) {
            Err(error) => {
                return Err(error);
            },
            Ok(None) => {
                assert(instructions_view(program@) + Seq::<InstructionView>::empty()
                    == instructions_view(program@));
                return Ok(program);
            },
            Ok(Some((instruction, next))) => {
                let ghost before = instructions_view(program@);
                let ghost added = instruction@;
                program.push(instruction);
                proof {
                    assert(instructions_view(program@) == before.push(added));
                    match spec_parse_from(view, next as int) {
                        Ok(rest) => {
                            assert(before + (seq![added] + rest) == before.push(added) + rest);
                        },
                        Err(_) => {},
                    }
                }
                position = next;
            },
        }
    }
}

} // verus!
