//! The failures an assembly can end in. Every one of them is fatal: the
//! assembler never recovers from an error and never hands out a partial
//! image.

use vstd::prelude::*;
use crate::lexer::Token;

verus! {

/// Why the source text could not be split into tokens.
#[derive(Clone, Copy, Debug, PartialEq, Eq, Structural)]
pub enum LexErrorKind {
    /// A character that starts no token, or a string literal that is
    /// never closed.
    UnrecognizedCharacter,
    /// A numeral with a digit that its radix does not have, or with no
    /// digit at all after its radix prefix.
    MalformedNumber,
    /// A numeral whose value does not fit in sixteen bits.
    NumberTooLarge,
}

/// A lexical error and the index of the character at which the offending
/// lexeme starts.
#[derive(Clone, Copy, Debug, PartialEq, Eq, Structural)]
pub struct LexError {
    pub kind: LexErrorKind,
    pub position: usize,
}

/// The statement or operand that was being read when the tokens stopped
/// matching the grammar.
#[derive(Clone, Copy, Debug, PartialEq, Eq, Structural)]
pub enum Context {
    Statement,
    Const,
    Mark,
    Data,
    Dstr,
    Operand,
    FromMem,
    SignedNumber,
}

/// What the grammar called for at the point of failure.
#[derive(Clone, Copy, Debug, PartialEq, Eq, Structural)]
pub enum Expected {
    Keyword,
    Identifier,
    Number,
    String,
    Register,
    Operand,
    RegisterOrLiteral,
    OperatorOrCloseBracket,
    RegisterNumberOrIdentifier,
    NumberOrIdentifier,
    CloseBracket,
}

/// A grammar error.
#[derive(Clone, Copy, Debug, PartialEq, Eq, Structural)]
pub enum SyntaxError {
    /// A token other than the grammar called for. `position` is the
    /// index of the offending token in the token buffer.
    UnexpectedToken { context: Context, expected: Expected, found: Token, position: usize },
    /// The input ended in the middle of a statement.
    UnexpectedEnd { context: Context, expected: Expected },
    /// A memory operand in the second position of a two-operand
    /// instruction.
    SecondOperandFromMem,
}

/// Any failure of an assembly.
#[derive(Debug, PartialEq, Eq)]
pub enum AssembleError {
    Lex(LexError),
    Syntax(SyntaxError),
    /// A symbol was referenced that no `CONST` or `MARK` defines.
    UndefinedSymbol(String),
    /// A second `CONST` or `MARK` tried to define a name again.
    DuplicateSymbol(String),
}

/// The mathematical value of an [`AssembleError`]: names are sequences of
/// characters.
pub enum AssembleErrorView {
    Lex(LexError),
    Syntax(SyntaxError),
    UndefinedSymbol(Seq<char>),
    DuplicateSymbol(Seq<char>),
}

impl View for AssembleError {
    type V = AssembleErrorView;

    open spec fn view(&self) -> AssembleErrorView {
        match self {
            AssembleError::Lex(e) => AssembleErrorView::Lex(*e),
            AssembleError::Syntax(e) => AssembleErrorView::Syntax(*e),
            AssembleError::UndefinedSymbol(name) => AssembleErrorView::UndefinedSymbol(name@),
            AssembleError::DuplicateSymbol(name) => AssembleErrorView::DuplicateSymbol(name@),
        }
    }
}

} // verus!
