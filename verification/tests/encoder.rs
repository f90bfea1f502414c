use asm16::encoder::{
    encode_identifiers, encode_one_op_instruction, encode_two_op_instruction,
    encode_two_register_from_mem, from_mem_partial_encode, partially_encode,
    register_literal_word, resolve, resolve_from_mem, resolve_literal, target_offset,
    two_register_literal_word, Byte, SymbolTable,
};
use asm16::error::{AssembleError, SyntaxError};
use asm16::keywords::{base_opcode, register_offset, Keyword, Register};
use asm16::parser::{FromMem, Instruction, Literal, Target};

const REGISTERS: [Register; 8] = [
    Register::A,
    Register::B,
    Register::C,
    Register::T,
    Register::SP,
    Register::VP,
    Register::PP,
    Register::FL,
];

fn name(text: &str) -> Literal {
    Literal::Identifier(false, text.to_string())
}

fn table(entries: &[(&str, u16)]) -> SymbolTable {
    let mut symbols = SymbolTable::new();
    for (name, value) in entries {
        symbols.define(&name.to_string(), *value).unwrap();
    }
    symbols
}

fn first_word(data: &[Byte]) -> u16 {
    match &data[0] {
        Byte::Definite(word) => *word,
        other => panic!("no finished word: {:?}", other),
    }
}

#[test]
fn register_ordinals() {
    for (ordinal, register) in REGISTERS.iter().enumerate() {
        assert_eq!(register_offset(register) as usize, ordinal);
    }
}

#[test]
fn operand_offsets() {
    for (ordinal, register) in REGISTERS.iter().enumerate() {
        assert_eq!(target_offset(&Target::Register(*register)) as usize, ordinal);
    }
    assert_eq!(target_offset(&Target::Literal(Literal::Number(0))), 8);
    assert_eq!(target_offset(&Target::Literal(name("x"))), 8);
    assert_eq!(target_offset(&Target::FromMem(FromMem::Register(Register::A))), 9);
}

#[test]
fn base_opcodes() {
    assert_eq!(base_opcode(Keyword::HALT), 0x0000);
    assert_eq!(base_opcode(Keyword::NOP), 0x0001);
    assert_eq!(base_opcode(Keyword::RET), 0x0002);
    let unary = [
        Keyword::NEG,
        Keyword::NOT,
        Keyword::PUSH,
        Keyword::POP,
        Keyword::VPUSH,
        Keyword::VPOP,
        Keyword::CALL,
        Keyword::JMP,
        Keyword::JG,
        Keyword::JNG,
        Keyword::JL,
        Keyword::JNL,
        Keyword::JE,
        Keyword::JNE,
        Keyword::EXTI,
    ];
    for (index, keyword) in unary.iter().enumerate() {
        assert_eq!(base_opcode(*keyword) as usize, 3 + 10 * index);
    }
    let binary = [
        Keyword::ADD,
        Keyword::SUB,
        Keyword::MUL,
        Keyword::DIV,
        Keyword::MOD,
        Keyword::SMUL,
        Keyword::SDIV,
        Keyword::SMOD,
        Keyword::AND,
        Keyword::OR,
        Keyword::XOR,
        Keyword::SHL,
        Keyword::SHR,
        Keyword::SAR,
        Keyword::SET,
        Keyword::GET,
        Keyword::SWAP,
        Keyword::CMP,
    ];
    for (index, keyword) in binary.iter().enumerate() {
        assert_eq!(base_opcode(*keyword) as usize, 153 + 90 * index);
    }
    assert_eq!(base_opcode(Keyword::EXTI), 0x008F);
    assert_eq!(base_opcode(Keyword::CMP), 0x0693);
    assert_eq!(base_opcode(Keyword::CONST), 0);
}

#[test]
fn one_operand_with_register_emits_one_word() {
    for register in REGISTERS {
        let data = encode_one_op_instruction(0x0003, &Target::Register(register));
        assert_eq!(data, vec![Byte::Definite(0x0003 + register_offset(&register))]);
    }
}

#[test]
fn one_operand_with_literal_emits_two_words() {
    assert_eq!(
        encode_one_op_instruction(0x0049, &Target::Literal(Literal::Number(0x1234))),
        vec![Byte::Definite(0x0051), Byte::Definite(0x1234)]
    );
    assert_eq!(
        encode_one_op_instruction(0x0049, &Target::Literal(name("start"))),
        vec![Byte::Definite(0x0051), Byte::Identifier(false, "start".to_string())]
    );
    assert_eq!(
        encode_one_op_instruction(
            0x0049,
            &Target::Literal(Literal::Identifier(true, "start".to_string()))
        ),
        vec![Byte::Definite(0x0051), Byte::Identifier(true, "start".to_string())]
    );
}

#[test]
fn one_operand_with_memory_operand_emits_two_words() {
    assert_eq!(
        encode_one_op_instruction(0x0003, &Target::FromMem(FromMem::Register(Register::C))),
        vec![Byte::Definite(0x000C), Byte::Definite(0x0002)]
    );
    let pending = FromMem::RegisterLiteral(Register::C, name("x"));
    assert_eq!(
        encode_one_op_instruction(0x0003, &Target::FromMem(pending.clone())),
        vec![Byte::Definite(0x000C), Byte::FromMemWithIdentifier(pending)]
    );
}

#[test]
fn two_operand_opcode_combines_both_offsets() {
    let mut lhs_kinds: Vec<Target> = REGISTERS.iter().map(|r| Target::Register(*r)).collect();
    lhs_kinds.push(Target::Literal(Literal::Number(1)));
    lhs_kinds.push(Target::FromMem(FromMem::Register(Register::A)));
    let mut rhs_kinds: Vec<Target> = REGISTERS.iter().map(|r| Target::Register(*r)).collect();
    rhs_kinds.push(Target::Literal(Literal::Number(1)));
    let base: u16 = 0x0099;
    for lhs in &lhs_kinds {
        for rhs in &rhs_kinds {
            let data = encode_two_op_instruction(base, lhs, rhs).unwrap();
            let opcode = first_word(&data);
            assert_eq!(opcode, base + target_offset(lhs) + 10 * target_offset(rhs));
            assert_eq!((opcode - base) % 10, target_offset(lhs));
            assert_eq!((opcode - base) / 10, target_offset(rhs));
            let extra = |t: &Target| if matches!(t, Target::Register(_)) { 0 } else { 1 };
            assert_eq!(data.len(), 1 + extra(lhs) + extra(rhs));
        }
    }
}

#[test]
fn two_operand_words_come_in_operand_order() {
    assert_eq!(
        encode_two_op_instruction(
            0x0099,
            &Target::Literal(Literal::Number(7)),
            &Target::Literal(name("x")),
        ),
        Ok(vec![
            Byte::Definite(0x0099 + 8 + 80),
            Byte::Definite(7),
            Byte::Identifier(false, "x".to_string()),
        ])
    );
    assert_eq!(
        encode_two_op_instruction(
            0x0693,
            &Target::FromMem(FromMem::TwoRegister(Register::A, false, Register::B)),
            &Target::Register(Register::FL),
        ),
        Ok(vec![Byte::Definite(0x0693 + 9 + 70), Byte::Definite(0x0018)])
    );
    assert_eq!(
        encode_two_op_instruction(
            0x0099,
            &Target::Register(Register::A),
            &Target::Register(Register::B)
        ),
        Ok(vec![Byte::Definite(0x00A3)])
    );
}

#[test]
fn two_operand_refuses_memory_operand_in_second_position() {
    assert_eq!(
        encode_two_op_instruction(
            0x0099,
            &Target::Register(Register::A),
            &Target::FromMem(FromMem::Register(Register::B)),
        ),
        Err(AssembleError::Syntax(SyntaxError::SecondOperandFromMem))
    );
}

#[test]
fn two_register_word() {
    assert_eq!(encode_two_register_from_mem(&Register::A, &Register::B, false), 0b0001_1000);
    assert_eq!(encode_two_register_from_mem(&Register::B, &Register::A, false), 0b0000_1001);
    assert_eq!(encode_two_register_from_mem(&Register::A, &Register::B, true), 0b1001_1000);
    assert_eq!(encode_two_register_from_mem(&Register::FL, &Register::FL, true), 0b1111_1111);
    assert_eq!(encode_two_register_from_mem(&Register::A, &Register::A, false), 0b0000_1000);
    for lhs in REGISTERS {
        for rhs in REGISTERS {
            for subtract in [false, true] {
                let word = encode_two_register_from_mem(&lhs, &rhs, subtract);
                assert_eq!(word & 0b111, register_offset(&lhs));
                assert_eq!(word & 0b1000, 0b1000);
                assert_eq!((word >> 4) & 0b111, register_offset(&rhs));
                assert_eq!(word & 0b1000_0000 != 0, subtract);
                assert_eq!(word >> 8, 0);
            }
        }
    }
}

#[test]
fn register_and_offset_word() {
    assert_eq!(register_literal_word(&Register::A, 5), 0x0050);
    assert_eq!(register_literal_word(&Register::FL, 0x0FFF), 0xFFF7);
    assert_eq!(register_literal_word(&Register::B, 0x1005), 0x0051);
    assert_eq!(register_literal_word(&Register::B, 0xFFFB), 0xFFB1);
    assert_eq!(register_literal_word(&Register::SP, 0), 0x0004);
}

#[test]
fn two_registers_and_offset_word() {
    assert_eq!(two_register_literal_word(&Register::A, &Register::B, true, 0xFFFB), 0xFB98);
    assert_eq!(two_register_literal_word(&Register::A, &Register::B, false, 5), 0x0518);
    assert_eq!(two_register_literal_word(&Register::A, &Register::B, false, 0x1234), 0x3418);
    assert_eq!(two_register_literal_word(&Register::C, &Register::T, false, 0), 0x003A);
}

#[test]
fn memory_operand_first_pass() {
    assert_eq!(from_mem_partial_encode(&FromMem::Register(Register::T)), Byte::Definite(3));
    assert_eq!(
        from_mem_partial_encode(&FromMem::RegisterLiteral(Register::A, Literal::Number(5))),
        Byte::Definite(0x0050)
    );
    assert_eq!(
        from_mem_partial_encode(&FromMem::TwoRegister(Register::A, false, Register::B)),
        Byte::Definite(0x0018)
    );
    assert_eq!(
        from_mem_partial_encode(&FromMem::TwoRegisterLiteral(
            Register::A,
            true,
            Register::B,
            Literal::Number(0xFFFB)
        )),
        Byte::Definite(0xFB98)
    );
    let single = FromMem::RegisterLiteral(Register::A, name("x"));
    assert_eq!(from_mem_partial_encode(&single), Byte::FromMemWithIdentifier(single.clone()));
    let double = FromMem::TwoRegisterLiteral(Register::A, true, Register::B, name("x"));
    assert_eq!(from_mem_partial_encode(&double), Byte::FromMemWithIdentifier(double.clone()));
}

#[test]
fn symbol_table_defines_once() {
    let mut symbols = SymbolTable::new();
    assert_eq!(symbols.lookup("x"), None);
    assert_eq!(symbols.define(&"x".to_string(), 7), Ok(()));
    assert_eq!(symbols.lookup("x"), Some(7));
    assert_eq!(symbols.lookup("X"), None);
    assert_eq!(
        symbols.define(&"x".to_string(), 9),
        Err(AssembleError::DuplicateSymbol("x".to_string()))
    );
    assert_eq!(symbols.lookup("x"), Some(7));
    assert_eq!(symbols.define(&"X".to_string(), 9), Ok(()));
    assert_eq!(symbols.lookup("X"), Some(9));
}

#[test]
fn first_pass_of_const_and_mark() {
    let mut symbols = SymbolTable::new();
    assert_eq!(
        partially_encode(&Instruction::CONST("X".to_string(), 5), &mut symbols, 10),
        Ok(vec![])
    );
    assert_eq!(symbols.lookup("X"), Some(5));
    assert_eq!(
        partially_encode(&Instruction::MARK("here".to_string()), &mut symbols, 10),
        Ok(vec![])
    );
    assert_eq!(symbols.lookup("here"), Some(10));
}

#[test]
fn first_pass_refuses_a_second_definition() {
    let mut symbols = table(&[("X", 5)]);
    assert_eq!(
        partially_encode(&Instruction::MARK("X".to_string()), &mut symbols, 3),
        Err(AssembleError::DuplicateSymbol("X".to_string()))
    );
    assert_eq!(
        partially_encode(&Instruction::CONST("X".to_string(), 5), &mut symbols, 3),
        Err(AssembleError::DuplicateSymbol("X".to_string()))
    );
    assert_eq!(symbols.lookup("X"), Some(5));
}

#[test]
fn first_pass_of_data() {
    let mut symbols = SymbolTable::new();
    assert_eq!(
        partially_encode(&Instruction::DATA(vec![1, 2, 3]), &mut symbols, 0),
        Ok(vec![Byte::Definite(1), Byte::Definite(2), Byte::Definite(3)])
    );
    assert_eq!(
        partially_encode(&Instruction::DSTR(vec![0x41]), &mut symbols, 0),
        Ok(vec![Byte::Definite(0x41)])
    );
    assert_eq!(partially_encode(&Instruction::DATA(vec![]), &mut symbols, 0), Ok(vec![]));
}

#[test]
fn first_pass_of_every_mnemonic() {
    let mut symbols = SymbolTable::new();
    let a = || Target::Register(Register::A);
    let nullary = [
        (Instruction::HALT, 0x0000),
        (Instruction::NOP, 0x0001),
        (Instruction::RET, 0x0002),
    ];
    for (instruction, opcode) in nullary {
        assert_eq!(
            partially_encode(&instruction, &mut symbols, 0),
            Ok(vec![Byte::Definite(opcode)])
        );
    }
    let unary = [
        (Instruction::NEG(a()), 0x0003),
        (Instruction::NOT(a()), 0x000D),
        (Instruction::PUSH(a()), 0x0017),
        (Instruction::POP(a()), 0x0021),
        (Instruction::VPUSH(a()), 0x002B),
        (Instruction::VPOP(a()), 0x0035),
        (Instruction::CALL(a()), 0x003F),
        (Instruction::JMP(a()), 0x0049),
        (Instruction::JG(a()), 0x0053),
        (Instruction::JNG(a()), 0x005D),
        (Instruction::JL(a()), 0x0067),
        (Instruction::JNL(a()), 0x0071),
        (Instruction::JE(a()), 0x007B),
        (Instruction::JNE(a()), 0x0085),
        (Instruction::EXTI(a()), 0x008F),
    ];
    for (instruction, opcode) in unary {
        assert_eq!(
            partially_encode(&instruction, &mut symbols, 0),
            Ok(vec![Byte::Definite(opcode)])
        );
    }
    let binary = [
        (Instruction::ADD(a(), a()), 0x0099),
        (Instruction::SUB(a(), a()), 0x00F3),
        (Instruction::MUL(a(), a()), 0x014D),
        (Instruction::DIV(a(), a()), 0x01A7),
        (Instruction::MOD(a(), a()), 0x0201),
        (Instruction::SMUL(a(), a()), 0x025B),
        (Instruction::SDIV(a(), a()), 0x02B5),
        (Instruction::SMOD(a(), a()), 0x030F),
        (Instruction::AND(a(), a()), 0x0369),
        (Instruction::OR(a(), a()), 0x03C3),
        (Instruction::XOR(a(), a()), 0x041D),
        (Instruction::SHL(a(), a()), 0x0477),
        (Instruction::SHR(a(), a()), 0x04D1),
        (Instruction::SAR(a(), a()), 0x052B),
        (Instruction::SET(a(), a()), 0x0585),
        (Instruction::GET(a(), a()), 0x05DF),
        (Instruction::SWAP(a(), a()), 0x0639),
        (Instruction::CMP(a(), a()), 0x0693),
    ];
    for (instruction, opcode) in binary {
        assert_eq!(
            partially_encode(&instruction, &mut symbols, 0),
            Ok(vec![Byte::Definite(opcode)])
        );
    }
}

#[test]
fn first_pass_of_largest_opcode() {
    let mut symbols = SymbolTable::new();
    let instruction = Instruction::CMP(
        Target::FromMem(FromMem::Register(Register::A)),
        Target::Literal(Literal::Number(1)),
    );
    assert_eq!(
        partially_encode(&instruction, &mut symbols, 0),
        Ok(vec![Byte::Definite(0x0693 + 9 + 80), Byte::Definite(0), Byte::Definite(1)])
    );
}

#[test]
fn first_pass_refuses_memory_operand_in_second_position() {
    let mut symbols = SymbolTable::new();
    let instruction = Instruction::ADD(
        Target::Register(Register::A),
        Target::FromMem(FromMem::Register(Register::B)),
    );
    assert_eq!(
        partially_encode(&instruction, &mut symbols, 0),
        Err(AssembleError::Syntax(SyntaxError::SecondOperandFromMem))
    );
}

#[test]
fn literal_resolution() {
    let symbols = table(&[("five", 5), ("zero", 0)]);
    assert_eq!(resolve_literal(&symbols, &Literal::Number(9)), Ok(9));
    assert_eq!(resolve_literal(&symbols, &name("five")), Ok(5));
    assert_eq!(
        resolve_literal(&symbols, &Literal::Identifier(true, "five".to_string())),
        Ok(0xFFFB)
    );
    assert_eq!(resolve_literal(&symbols, &Literal::Identifier(true, "zero".to_string())), Ok(0));
    assert_eq!(
        resolve_literal(&symbols, &name("six")),
        Err(AssembleError::UndefinedSymbol("six".to_string()))
    );
}

#[test]
fn memory_operand_resolution() {
    let symbols = table(&[("X", 5)]);
    assert_eq!(resolve_from_mem(&symbols, &FromMem::Register(Register::C)), Ok(2));
    assert_eq!(
        resolve_from_mem(&symbols, &FromMem::TwoRegister(Register::A, true, Register::B)),
        Ok(0x0098)
    );
    assert_eq!(
        resolve_from_mem(&symbols, &FromMem::RegisterLiteral(Register::A, name("X"))),
        Ok(0x0050)
    );
    assert_eq!(
        resolve_from_mem(
            &symbols,
            &FromMem::RegisterLiteral(Register::A, Literal::Identifier(true, "X".to_string()))
        ),
        Ok(0xFFB0)
    );
    assert_eq!(
        resolve_from_mem(
            &symbols,
            &FromMem::TwoRegisterLiteral(
                Register::A,
                true,
                Register::B,
                Literal::Identifier(true, "X".to_string())
            )
        ),
        Ok(0xFB98)
    );
    assert_eq!(
        resolve_from_mem(&symbols, &FromMem::RegisterLiteral(Register::A, name("Y"))),
        Err(AssembleError::UndefinedSymbol("Y".to_string()))
    );
    assert_eq!(
        resolve_from_mem(
            &symbols,
            &FromMem::TwoRegisterLiteral(Register::A, false, Register::B, name("Z"))
        ),
        Err(AssembleError::UndefinedSymbol("Z".to_string()))
    );
}

#[test]
fn named_offset_encodes_like_its_value() {
    for value in [0u16, 5, 0x0FFF, 0x1000, 0x8000, 0xFFFF] {
        let symbols = table(&[("X", value)]);
        for negative in [false, true] {
            let offset = asm16::parser::signed_number(negative, value);
            let named = FromMem::RegisterLiteral(
                Register::T,
                Literal::Identifier(negative, "X".to_string()),
            );
            let written = FromMem::RegisterLiteral(Register::T, Literal::Number(offset));
            assert_eq!(
                resolve(&symbols, &from_mem_partial_encode(&named)),
                resolve(&symbols, &from_mem_partial_encode(&written))
            );
            let named = FromMem::TwoRegisterLiteral(
                Register::T,
                true,
                Register::VP,
                Literal::Identifier(negative, "X".to_string()),
            );
            let written = FromMem::TwoRegisterLiteral(
                Register::T,
                true,
                Register::VP,
                Literal::Number(offset),
            );
            assert_eq!(
                resolve(&symbols, &from_mem_partial_encode(&named)),
                resolve(&symbols, &from_mem_partial_encode(&written))
            );
        }
    }
}

#[test]
fn slot_resolution() {
    let symbols = table(&[("X", 5)]);
    assert_eq!(resolve(&symbols, &Byte::Definite(0xBEEF)), Ok(0xBEEF));
    assert_eq!(resolve(&symbols, &Byte::Identifier(false, "X".to_string())), Ok(5));
    assert_eq!(resolve(&symbols, &Byte::Identifier(true, "X".to_string())), Ok(0xFFFB));
    assert_eq!(
        resolve(&symbols, &Byte::Identifier(false, "x".to_string())),
        Err(AssembleError::UndefinedSymbol("x".to_string()))
    );
    assert_eq!(
        resolve(
            &symbols,
            &Byte::FromMemWithIdentifier(FromMem::RegisterLiteral(Register::B, name("X")))
        ),
        Ok(0x0051)
    );
}

#[test]
fn second_pass_resolves_every_slot() {
    let symbols = table(&[("X", 5), ("far", 0x1234)]);
    let slots = vec![
        Byte::Definite(0x0051),
        Byte::Identifier(false, "far".to_string()),
        Byte::FromMemWithIdentifier(FromMem::RegisterLiteral(Register::A, name("X"))),
        Byte::FromMemWithIdentifier(FromMem::TwoRegisterLiteral(
            Register::A,
            true,
            Register::B,
            name("X"),
        )),
        Byte::Definite(7),
    ];
    assert_eq!(
        encode_identifiers(&symbols, &slots),
        Ok(vec![0x0051, 0x1234, 0x0050, 0x0598, 7])
    );
    assert_eq!(encode_identifiers(&symbols, &vec![]), Ok(vec![]));
}

#[test]
fn second_pass_fails_on_the_first_undefined_symbol() {
    let symbols = table(&[("X", 5)]);
    let slots = vec![
        Byte::Definite(1),
        Byte::Identifier(false, "X".to_string()),
        Byte::Identifier(false, "first".to_string()),
        Byte::FromMemWithIdentifier(FromMem::RegisterLiteral(Register::A, name("second"))),
    ];
    assert_eq!(
        encode_identifiers(&symbols, &slots),
        Err(AssembleError::UndefinedSymbol("first".to_string()))
    );
}

#[test]
fn no_two_instructions_share_an_opcode() {
    let nullary = [Keyword::HALT, Keyword::NOP, Keyword::RET];
    let unary = [
        Keyword::NEG,
        Keyword::NOT,
        Keyword::PUSH,
        Keyword::POP,
        Keyword::VPUSH,
        Keyword::VPOP,
        Keyword::CALL,
        Keyword::JMP,
        Keyword::JG,
        Keyword::JNG,
        Keyword::JL,
        Keyword::JNL,
        Keyword::JE,
        Keyword::JNE,
        Keyword::EXTI,
    ];
    let binary = [
        Keyword::ADD,
        Keyword::SUB,
        Keyword::MUL,
        Keyword::DIV,
        Keyword::MOD,
        Keyword::SMUL,
        Keyword::SDIV,
        Keyword::SMOD,
        Keyword::AND,
        Keyword::OR,
        Keyword::XOR,
        Keyword::SHL,
        Keyword::SHR,
        Keyword::SAR,
        Keyword::SET,
        Keyword::GET,
        Keyword::SWAP,
        Keyword::CMP,
    ];
    let mut opcodes: Vec<u16> = Vec::new();
    for keyword in nullary {
        opcodes.push(base_opcode(keyword));
    }
    for keyword in unary {
        for first in 0..10 {
            opcodes.push(base_opcode(keyword) + first);
        }
    }
    for keyword in binary {
        for second in 0..9 {
            for first in 0..10 {
                opcodes.push(base_opcode(keyword) + first + 10 * second);
            }
        }
    }
    assert_eq!(opcodes.len(), 3 + 15 * 10 + 18 * 90);
    let expected: Vec<u16> = (0..opcodes.len() as u16).collect();
    assert_eq!(opcodes, expected);
}
