//! The closed vocabularies of the assembly language: mnemonics and
//! register names.

use vstd::prelude::*;

verus! {

/// Every mnemonic the assembler understands, pseudo-operations included.
#[allow(non_camel_case_types)]
#[derive(Clone, Copy, Debug, PartialEq, Eq, Structural)]
pub enum Keyword {
    CONST,
    MARK,
    DATA,
    DSTR,
    ADD,
    SUB,
    MUL,
    SMUL,
    DIV,
    SDIV,
    MOD,
    SMOD,
    NEG,
    NOT,
    AND,
    OR,
    XOR,
    SHL,
    SHR,
    SAR,
    CMP,
    JG,
    JNG,
    JL,
    JNL,
    JE,
    JNE,
    JMP,
    SET,
    GET,
    SWAP,
    PUSH,
    POP,
    CALL,
    RET,
    VPUSH,
    VPOP,
    NOP,
    HALT,
    EXTI,
}

/// The eight machine registers.
#[allow(non_camel_case_types)]
#[derive(Clone, Copy, Debug, PartialEq, Eq, Structural)]
pub enum Register {
    A,
    B,
    C,
    T,
    SP,
    VP,
    PP,
    FL,
}

/// How many operands a mnemonic takes, or that it is a pseudo-operation.
#[derive(Clone, Copy, Debug, PartialEq, Eq, Structural)]
pub enum Shape {
    /// `CONST`, `MARK`, `DATA` and `DSTR`: handled by the assembler itself.
    Pseudo,
    /// No operand.
    Nullary,
    /// One operand of any kind.
    Unary,
    /// Two operands; the second is a register or a literal.
    Binary,
}

impl Register {
    /// The fixed three-bit number by which every encoding names a register.
    pub open spec fn ordinal(self) -> u16 {
        match self {
            Register::A => 0,
            Register::B => 1,
            Register::C => 2,
            Register::T => 3,
            Register::SP => 4,
            Register::VP => 5,
            Register::PP => 6,
            Register::FL => 7,
        }
    }
}

impl Keyword {
    /// The operand shape of a mnemonic.
    pub open spec fn shape(self) -> Shape {
        match self {
            Keyword::CONST | Keyword::MARK | Keyword::DATA | Keyword::DSTR => Shape::Pseudo,
            Keyword::HALT | Keyword::NOP | Keyword::RET => Shape::Nullary,
            Keyword::NEG
            | Keyword::NOT
            | Keyword::PUSH
            | Keyword::POP
            | Keyword::VPUSH
            | Keyword::VPOP
            | Keyword::CALL
            | Keyword::JMP
            | Keyword::JG
            | Keyword::JNG
            | Keyword::JL
            | Keyword::JNL
            | Keyword::JE
            | Keyword::JNE
            | Keyword::EXTI => Shape::Unary,
            _ => Shape::Binary,
        }
    }

    /// The opcode of a mnemonic before any operand offset is added.
    /// Pseudo-operations emit no opcode; for them the value is 0.
    pub open spec fn base_opcode(self) -> u16 {
        match self {
            Keyword::CONST | Keyword::MARK | Keyword::DATA | Keyword::DSTR => 0,
            Keyword::HALT => 0x0000,
            Keyword::NOP => 0x0001,
            Keyword::RET => 0x0002,
            Keyword::NEG => 0x0003,
            Keyword::NOT => 0x000D,
            Keyword::PUSH => 0x0017,
            Keyword::POP => 0x0021,
            Keyword::VPUSH => 0x002B,
            Keyword::VPOP => 0x0035,
            Keyword::CALL => 0x003F,
            Keyword::JMP => 0x0049,
            Keyword::JG => 0x0053,
            Keyword::JNG => 0x005D,
            Keyword::JL => 0x0067,
            Keyword::JNL => 0x0071,
            Keyword::JE => 0x007B,
            Keyword::JNE => 0x0085,
            Keyword::EXTI => 0x008F,
            Keyword::ADD => 0x0099,
            Keyword::SUB => 0x00F3,
            Keyword::MUL => 0x014D,
            Keyword::DIV => 0x01A7,
            Keyword::MOD => 0x0201,
            Keyword::SMUL => 0x025B,
            Keyword::SDIV => 0x02B5,
            Keyword::SMOD => 0x030F,
            Keyword::AND => 0x0369,
            Keyword::OR => 0x03C3,
            Keyword::XOR => 0x041D,
            Keyword::SHL => 0x0477,
            Keyword::SHR => 0x04D1,
            Keyword::SAR => 0x052B,
            Keyword::SET => 0x0585,
            Keyword::GET => 0x05DF,
            Keyword::SWAP => 0x0639,
            Keyword::CMP => 0x0693,
        }
    }
}

/// The opcode of a mnemonic before any operand offset is added.
pub fn base_opcode(keyword: Keyword) -> (opcode: u16)
    ensures
        opcode == keyword.base_opcode(),
        opcode <= 0x0693,
{
    match keyword {
        Keyword::CONST | Keyword::MARK | Keyword::DATA | Keyword::DSTR => 0,
        Keyword::HALT => 0x0000,
        Keyword::NOP => 0x0001,
        Keyword::RET => 0x0002,
        Keyword::NEG => 0x0003,
        Keyword::NOT => 0x000D,
        Keyword::PUSH => 0x0017,
        Keyword::POP => 0x0021,
        Keyword::VPUSH => 0x002B,
        Keyword::VPOP => 0x0035,
        Keyword::CALL => 0x003F,
        Keyword::JMP => 0x0049,
        Keyword::JG => 0x0053,
        Keyword::JNG => 0x005D,
        Keyword::JL => 0x0067,
        Keyword::JNL => 0x0071,
        Keyword::JE => 0x007B,
        Keyword::JNE => 0x0085,
        Keyword::EXTI => 0x008F,
        Keyword::ADD => 0x0099,
        Keyword::SUB => 0x00F3,
        Keyword::MUL => 0x014D,
        Keyword::DIV => 0x01A7,
        Keyword::MOD => 0x0201,
        Keyword::SMUL => 0x025B,
        Keyword::SDIV => 0x02B5,
        Keyword::SMOD => 0x030F,
        Keyword::AND => 0x0369,
        Keyword::OR => 0x03C3,
        Keyword::XOR => 0x041D,
        Keyword::SHL => 0x0477,
        Keyword::SHR => 0x04D1,
        Keyword::SAR => 0x052B,
        Keyword::SET => 0x0585,
        Keyword::GET => 0x05DF,
        Keyword::SWAP => 0x0639,
        Keyword::CMP => 0x0693,
    }
}

/// The encoding ordinal of a register, 0 to 7.
pub fn register_offset(register: &Register) -> (offset: u16)
    ensures
        offset == register.ordinal(),
        offset <= 7,
{
    match register {
        Register::A => 0,
        Register::B => 1,
        Register::C => 2,
        Register::T => 3,
        Register::SP => 4,
        Register::VP => 5,
        Register::PP => 6,
        Register::FL => 7,
    }
}

} // verus!
