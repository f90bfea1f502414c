use asm16::error::{Context, Expected, SyntaxError};
use asm16::keywords::{Keyword, Register};
use asm16::lexer::{tokenize, Lexeme, Token};
use asm16::parser::{
    assemble_CONST, assemble_DATA, assemble_DSTR, assemble_MARK, assemble_from_mem,
    assemble_number, assemble_signed_number, decompile_string, expect_close_bracket,
    get_next_operand, match_keyword, parse, parse_program, signed_number, FromMem, Instruction,
    Literal, Parts, Target,
};

fn lexemes(source: &str) -> Vec<Lexeme> {
    tokenize(source).unwrap()
}

fn program(source: &str) -> Vec<Instruction> {
    parse_program(&lexemes(source)).unwrap()
}

fn syntax_error(source: &str) -> SyntaxError {
    parse_program(&lexemes(source)).unwrap_err()
}

fn one(source: &str) -> Instruction {
    let mut all = program(source);
    assert_eq!(all.len(), 1);
    all.remove(0)
}

fn name(text: &str) -> Literal {
    Literal::Identifier(false, text.to_string())
}

#[test]
fn signed_number_is_twos_complement() {
    assert_eq!(signed_number(false, 5), 5);
    assert_eq!(signed_number(true, 5), 0xFFFB);
    assert_eq!(signed_number(true, 1), 0xFFFF);
    assert_eq!(signed_number(true, 0), 0);
    assert_eq!(signed_number(false, 0), 0);
    assert_eq!(signed_number(true, 0x8000), 0x8000);
    assert_eq!(signed_number(true, 0xFFFF), 1);
    assert_eq!(signed_number(false, 0xFFFF), 0xFFFF);
}

#[test]
fn decompile_string_cuts_the_quotes() {
    assert_eq!(decompile_string("\"AB\""), vec![0x41, 0x42]);
    assert_eq!(decompile_string("\"\""), Vec::<u16>::new());
    assert_eq!(decompile_string("\" \""), vec![0x20]);
}

#[test]
fn decompile_string_does_not_unescape() {
    assert_eq!(decompile_string("\"a\\\"b\""), vec![0x61, 0x5C, 0x22, 0x62]);
    assert_eq!(decompile_string("\"\\n\""), vec![0x5C, 0x6E]);
}

#[test]
fn decompile_string_keeps_sixteen_bits_of_a_character() {
    assert_eq!(decompile_string("\"é☃\""), vec![0x00E9, 0x2603]);
    assert_eq!(decompile_string("\"😀\""), vec![0xF600]);
}

#[test]
fn end_of_input_is_no_statement() {
    assert_eq!(parse(&lexemes(""), 0), Ok(None));
    assert_eq!(parse(&lexemes("NOP"), 1), Ok(None));
    assert_eq!(parse(&lexemes("NOP"), 7), Ok(None));
    assert_eq!(program(""), vec![]);
}

#[test]
fn statements_without_operand() {
    assert_eq!(
        program("HALT NOP RET"),
        vec![Instruction::HALT, Instruction::NOP, Instruction::RET]
    );
    assert_eq!(parse(&lexemes("HALT NOP"), 0), Ok(Some((Instruction::HALT, 1))));
    assert_eq!(parse(&lexemes("HALT NOP"), 1), Ok(Some((Instruction::NOP, 2))));
}

#[test]
fn statement_must_start_with_a_keyword() {
    assert_eq!(
        syntax_error("5"),
        SyntaxError::UnexpectedToken {
            context: Context::Statement,
            expected: Expected::Keyword,
            found: Token::Number(5),
            position: 0,
        }
    );
    assert_eq!(
        syntax_error("NOP A"),
        SyntaxError::UnexpectedToken {
            context: Context::Statement,
            expected: Expected::Keyword,
            found: Token::Register(Register::A),
            position: 1,
        }
    );
    assert_eq!(
        syntax_error("NEG A ]"),
        SyntaxError::UnexpectedToken {
            context: Context::Statement,
            expected: Expected::Keyword,
            found: Token::CloseBracket,
            position: 2,
        }
    );
}

#[test]
fn every_one_operand_mnemonic() {
    let a = || Target::Register(Register::A);
    assert_eq!(
        program("NEG A NOT A PUSH A POP A VPUSH A VPOP A CALL A JMP A"),
        vec![
            Instruction::NEG(a()),
            Instruction::NOT(a()),
            Instruction::PUSH(a()),
            Instruction::POP(a()),
            Instruction::VPUSH(a()),
            Instruction::VPOP(a()),
            Instruction::CALL(a()),
            Instruction::JMP(a()),
        ]
    );
    assert_eq!(
        program("JG A JNG A JL A JNL A JE A JNE A EXTI A"),
        vec![
            Instruction::JG(a()),
            Instruction::JNG(a()),
            Instruction::JL(a()),
            Instruction::JNL(a()),
            Instruction::JE(a()),
            Instruction::JNE(a()),
            Instruction::EXTI(a()),
        ]
    );
}

#[test]
fn every_two_operand_mnemonic() {
    let a = || Target::Register(Register::A);
    let b = || Target::Register(Register::B);
    assert_eq!(
        program("ADD A B SUB A B MUL A B DIV A B MOD A B SMUL A B SDIV A B SMOD A B AND A B"),
        vec![
            Instruction::ADD(a(), b()),
            Instruction::SUB(a(), b()),
            Instruction::MUL(a(), b()),
            Instruction::DIV(a(), b()),
            Instruction::MOD(a(), b()),
            Instruction::SMUL(a(), b()),
            Instruction::SDIV(a(), b()),
            Instruction::SMOD(a(), b()),
            Instruction::AND(a(), b()),
        ]
    );
    assert_eq!(
        program("OR A B XOR A B SHL A B SHR A B SAR A B SET A B GET A B SWAP A B CMP A B"),
        vec![
            Instruction::OR(a(), b()),
            Instruction::XOR(a(), b()),
            Instruction::SHL(a(), b()),
            Instruction::SHR(a(), b()),
            Instruction::SAR(a(), b()),
            Instruction::SET(a(), b()),
            Instruction::GET(a(), b()),
            Instruction::SWAP(a(), b()),
            Instruction::CMP(a(), b()),
        ]
    );
}

#[test]
fn operand_kinds() {
    assert_eq!(one("NEG 7"), Instruction::NEG(Target::Literal(Literal::Number(7))));
    assert_eq!(one("NEG +7"), Instruction::NEG(Target::Literal(Literal::Number(7))));
    assert_eq!(one("NEG -7"), Instruction::NEG(Target::Literal(Literal::Number(0xFFF9))));
    assert_eq!(one("NEG x.y"), Instruction::NEG(Target::Literal(name("x.y"))));
    assert_eq!(one("NEG vp"), Instruction::NEG(Target::Register(Register::VP)));
    assert_eq!(
        one("NEG [T]"),
        Instruction::NEG(Target::FromMem(FromMem::Register(Register::T)))
    );
}

#[test]
fn operand_reader_by_position() {
    let tokens = lexemes("ADD [A] -3");
    assert_eq!(
        get_next_operand(&tokens, 1, false),
        Ok((Target::FromMem(FromMem::Register(Register::A)), 4))
    );
    assert_eq!(
        get_next_operand(&tokens, 4, true),
        Ok((Target::Literal(Literal::Number(0xFFFD)), 6))
    );
    assert_eq!(get_next_operand(&tokens, 1, true), Err(SyntaxError::SecondOperandFromMem));
    assert_eq!(
        get_next_operand(&tokens, 6, true),
        Err(SyntaxError::UnexpectedEnd {
            context: Context::Operand,
            expected: Expected::RegisterOrLiteral,
        })
    );
}

#[test]
fn signed_identifier_is_no_operand() {
    assert_eq!(
        syntax_error("NEG -x"),
        SyntaxError::UnexpectedToken {
            context: Context::Operand,
            expected: Expected::Number,
            found: Token::Identifier,
            position: 2,
        }
    );
}

#[test]
fn sign_at_the_end_of_input() {
    assert_eq!(
        syntax_error("NEG -"),
        SyntaxError::UnexpectedEnd { context: Context::SignedNumber, expected: Expected::Number }
    );
    let tokens = lexemes("- 4 +");
    assert_eq!(assemble_signed_number(&tokens, 0, Context::Data), Ok((0xFFFC, 2)));
    assert_eq!(
        assemble_signed_number(&tokens, 2, Context::Data),
        Err(SyntaxError::UnexpectedEnd {
            context: Context::SignedNumber,
            expected: Expected::Number,
        })
    );
    assert_eq!(assemble_number(&tokens, 1, Context::Const), Ok((4, 2)));
    assert_eq!(assemble_number(&tokens, 0, Context::Const), Ok((0xFFFC, 2)));
    assert_eq!(
        assemble_number(&tokens, 3, Context::Const),
        Err(SyntaxError::UnexpectedEnd { context: Context::Const, expected: Expected::Number })
    );
}

#[test]
fn operand_missing() {
    assert_eq!(
        syntax_error("NEG"),
        SyntaxError::UnexpectedEnd { context: Context::Operand, expected: Expected::Operand }
    );
    assert_eq!(
        syntax_error("ADD A"),
        SyntaxError::UnexpectedEnd {
            context: Context::Operand,
            expected: Expected::RegisterOrLiteral,
        }
    );
    assert_eq!(
        syntax_error("NEG NOP"),
        SyntaxError::UnexpectedToken {
            context: Context::Operand,
            expected: Expected::Operand,
            found: Token::Keyword(Keyword::NOP),
            position: 1,
        }
    );
    assert_eq!(
        syntax_error("ADD A \"s\""),
        SyntaxError::UnexpectedToken {
            context: Context::Operand,
            expected: Expected::RegisterOrLiteral,
            found: Token::String,
            position: 2,
        }
    );
}

#[test]
fn memory_operand_in_second_position_is_refused() {
    assert_eq!(syntax_error("ADD A [B]"), SyntaxError::SecondOperandFromMem);
    assert_eq!(syntax_error("SET [A] [B]"), SyntaxError::SecondOperandFromMem);
}

#[test]
fn memory_operand_in_first_position() {
    assert_eq!(
        one("SET [A+2] B"),
        Instruction::SET(
            Target::FromMem(FromMem::RegisterLiteral(Register::A, Literal::Number(2))),
            Target::Register(Register::B),
        )
    );
}

#[test]
fn memory_operand_with_one_register() {
    let tokens = lexemes("[SP]");
    assert_eq!(assemble_from_mem(&tokens, 1), Ok((FromMem::Register(Register::SP), 3)));
}

#[test]
fn memory_operand_with_register_and_offset() {
    assert_eq!(
        assemble_from_mem(&lexemes("[A+5]"), 1),
        Ok((FromMem::RegisterLiteral(Register::A, Literal::Number(5)), 5))
    );
    assert_eq!(
        assemble_from_mem(&lexemes("[A-5]"), 1),
        Ok((FromMem::RegisterLiteral(Register::A, Literal::Number(0xFFFB)), 5))
    );
    assert_eq!(
        assemble_from_mem(&lexemes("[A+X]"), 1),
        Ok((
            FromMem::RegisterLiteral(Register::A, Literal::Identifier(false, "X".to_string())),
            5
        ))
    );
    assert_eq!(
        assemble_from_mem(&lexemes("[A-X]"), 1),
        Ok((
            FromMem::RegisterLiteral(Register::A, Literal::Identifier(true, "X".to_string())),
            5
        ))
    );
}

#[test]
fn memory_operand_with_two_registers() {
    assert_eq!(
        assemble_from_mem(&lexemes("[A+B]"), 1),
        Ok((FromMem::TwoRegister(Register::A, false, Register::B), 5))
    );
    assert_eq!(
        assemble_from_mem(&lexemes("[PP-FL]"), 1),
        Ok((FromMem::TwoRegister(Register::PP, true, Register::FL), 5))
    );
}

#[test]
fn memory_operand_with_two_registers_and_offset() {
    assert_eq!(
        assemble_from_mem(&lexemes("[A-B-5]"), 1),
        Ok((
            FromMem::TwoRegisterLiteral(Register::A, true, Register::B, Literal::Number(0xFFFB)),
            7
        ))
    );
    assert_eq!(
        assemble_from_mem(&lexemes("[A+B+5]"), 1),
        Ok((FromMem::TwoRegisterLiteral(Register::A, false, Register::B, Literal::Number(5)), 7))
    );
}

#[test]
fn first_sign_goes_to_the_offset_and_second_sign_to_the_flag() {
    assert_eq!(
        assemble_from_mem(&lexemes("[A-B+5]"), 1),
        Ok((
            FromMem::TwoRegisterLiteral(Register::A, false, Register::B, Literal::Number(0xFFFB)),
            7
        ))
    );
    assert_eq!(
        assemble_from_mem(&lexemes("[A+B-5]"), 1),
        Ok((FromMem::TwoRegisterLiteral(Register::A, true, Register::B, Literal::Number(5)), 7))
    );
    assert_eq!(
        assemble_from_mem(&lexemes("[A-B+X]"), 1),
        Ok((
            FromMem::TwoRegisterLiteral(
                Register::A,
                false,
                Register::B,
                Literal::Identifier(true, "X".to_string()),
            ),
            7
        ))
    );
}

#[test]
fn memory_operand_must_start_with_a_register() {
    assert_eq!(
        syntax_error("NEG [5]"),
        SyntaxError::UnexpectedToken {
            context: Context::FromMem,
            expected: Expected::Register,
            found: Token::Number(5),
            position: 2,
        }
    );
    assert_eq!(
        syntax_error("NEG [x]"),
        SyntaxError::UnexpectedToken {
            context: Context::FromMem,
            expected: Expected::Register,
            found: Token::Identifier,
            position: 2,
        }
    );
}

#[test]
fn memory_operand_token_mismatch() {
    assert_eq!(
        syntax_error("NEG [A B]"),
        SyntaxError::UnexpectedToken {
            context: Context::FromMem,
            expected: Expected::OperatorOrCloseBracket,
            found: Token::Register(Register::B),
            position: 3,
        }
    );
    assert_eq!(
        syntax_error("NEG [A+]"),
        SyntaxError::UnexpectedToken {
            context: Context::FromMem,
            expected: Expected::RegisterNumberOrIdentifier,
            found: Token::CloseBracket,
            position: 4,
        }
    );
    assert_eq!(
        syntax_error("NEG [A+5 NOP"),
        SyntaxError::UnexpectedToken {
            context: Context::FromMem,
            expected: Expected::CloseBracket,
            found: Token::Keyword(Keyword::NOP),
            position: 5,
        }
    );
    assert_eq!(
        syntax_error("NEG [A+B 5]"),
        SyntaxError::UnexpectedToken {
            context: Context::FromMem,
            expected: Expected::OperatorOrCloseBracket,
            found: Token::Number(5),
            position: 5,
        }
    );
    assert_eq!(
        syntax_error("NEG [A+B+C]"),
        SyntaxError::UnexpectedToken {
            context: Context::FromMem,
            expected: Expected::NumberOrIdentifier,
            found: Token::Register(Register::C),
            position: 6,
        }
    );
    assert_eq!(
        syntax_error("NEG [A+B+5+"),
        SyntaxError::UnexpectedToken {
            context: Context::FromMem,
            expected: Expected::CloseBracket,
            found: Token::Operator,
            position: 7,
        }
    );
}

#[test]
fn memory_operand_cut_short() {
    let end = |expected| SyntaxError::UnexpectedEnd { context: Context::FromMem, expected };
    assert_eq!(syntax_error("NEG ["), end(Expected::Register));
    assert_eq!(syntax_error("NEG [A"), end(Expected::OperatorOrCloseBracket));
    assert_eq!(syntax_error("NEG [A+"), end(Expected::RegisterNumberOrIdentifier));
    assert_eq!(syntax_error("NEG [A+5"), end(Expected::CloseBracket));
    assert_eq!(syntax_error("NEG [A+x"), end(Expected::CloseBracket));
    assert_eq!(syntax_error("NEG [A+B"), end(Expected::OperatorOrCloseBracket));
    assert_eq!(syntax_error("NEG [A+B-"), end(Expected::NumberOrIdentifier));
    assert_eq!(syntax_error("NEG [A+B-5"), end(Expected::CloseBracket));
}

#[test]
fn close_bracket_is_required() {
    let tokens = lexemes("] A");
    assert_eq!(expect_close_bracket(&tokens, 0), Ok(()));
    assert_eq!(
        expect_close_bracket(&tokens, 1),
        Err(SyntaxError::UnexpectedToken {
            context: Context::FromMem,
            expected: Expected::CloseBracket,
            found: Token::Register(Register::A),
            position: 1,
        })
    );
    assert_eq!(
        expect_close_bracket(&tokens, 2),
        Err(SyntaxError::UnexpectedEnd {
            context: Context::FromMem,
            expected: Expected::CloseBracket,
        })
    );
}

#[test]
fn const_statement() {
    assert_eq!(one("CONST X 5"), Instruction::CONST("X".to_string(), 5));
    assert_eq!(one("CONST screen.w -2"), Instruction::CONST("screen.w".to_string(), 0xFFFE));
    assert_eq!(one("CONST X +0x10"), Instruction::CONST("X".to_string(), 16));
    assert_eq!(
        assemble_CONST(&lexemes("CONST X 5 NOP"), 1),
        Ok((Instruction::CONST("X".to_string(), 5), 3))
    );
}

#[test]
fn const_statement_malformed() {
    assert_eq!(
        syntax_error("CONST 5 5"),
        SyntaxError::UnexpectedToken {
            context: Context::Const,
            expected: Expected::Identifier,
            found: Token::Number(5),
            position: 1,
        }
    );
    assert_eq!(
        syntax_error("CONST A 5"),
        SyntaxError::UnexpectedToken {
            context: Context::Const,
            expected: Expected::Identifier,
            found: Token::Register(Register::A),
            position: 1,
        }
    );
    assert_eq!(
        syntax_error("CONST X Y"),
        SyntaxError::UnexpectedToken {
            context: Context::Const,
            expected: Expected::Number,
            found: Token::Identifier,
            position: 2,
        }
    );
    assert_eq!(
        syntax_error("CONST X - Y"),
        SyntaxError::UnexpectedToken {
            context: Context::Const,
            expected: Expected::Number,
            found: Token::Identifier,
            position: 3,
        }
    );
    assert_eq!(
        syntax_error("CONST"),
        SyntaxError::UnexpectedEnd { context: Context::Const, expected: Expected::Identifier }
    );
    assert_eq!(
        syntax_error("CONST X"),
        SyntaxError::UnexpectedEnd { context: Context::Const, expected: Expected::Number }
    );
}

#[test]
fn mark_statement() {
    assert_eq!(one("MARK loop"), Instruction::MARK("loop".to_string()));
    assert_eq!(
        assemble_MARK(&lexemes("MARK loop NOP"), 1),
        Ok((Instruction::MARK("loop".to_string()), 2))
    );
    assert_eq!(
        syntax_error("MARK"),
        SyntaxError::UnexpectedEnd { context: Context::Mark, expected: Expected::Identifier }
    );
    assert_eq!(
        syntax_error("MARK 1"),
        SyntaxError::UnexpectedToken {
            context: Context::Mark,
            expected: Expected::Identifier,
            found: Token::Number(1),
            position: 1,
        }
    );
}

#[test]
fn data_statement() {
    assert_eq!(one("DATA 1, 2, 3"), Instruction::DATA(vec![1, 2, 3]));
    assert_eq!(one("DATA"), Instruction::DATA(vec![]));
    assert_eq!(one("DATA -1 +2 0xFFFF"), Instruction::DATA(vec![0xFFFF, 2, 0xFFFF]));
}

#[test]
fn data_leaves_the_next_statement_alone() {
    assert_eq!(
        program("DATA 1 2 NOP DATA HALT"),
        vec![
            Instruction::DATA(vec![1, 2]),
            Instruction::NOP,
            Instruction::DATA(vec![]),
            Instruction::HALT,
        ]
    );
    assert_eq!(
        assemble_DATA(&lexemes("DATA 1 2 NOP"), 1),
        Ok((Instruction::DATA(vec![1, 2]), 3))
    );
    assert_eq!(assemble_DATA(&lexemes("DATA"), 1), Ok((Instruction::DATA(vec![]), 1)));
}

#[test]
fn data_stops_at_a_token_that_is_no_number() {
    assert_eq!(
        syntax_error("DATA 1 x"),
        SyntaxError::UnexpectedToken {
            context: Context::Statement,
            expected: Expected::Keyword,
            found: Token::Identifier,
            position: 2,
        }
    );
}

#[test]
fn data_sign_without_number() {
    assert_eq!(
        syntax_error("DATA 1 + NOP"),
        SyntaxError::UnexpectedToken {
            context: Context::Data,
            expected: Expected::Number,
            found: Token::Keyword(Keyword::NOP),
            position: 3,
        }
    );
    assert_eq!(
        syntax_error("DATA 1 -"),
        SyntaxError::UnexpectedEnd { context: Context::SignedNumber, expected: Expected::Number }
    );
}

#[test]
fn dstr_statement() {
    assert_eq!(one("DSTR \"AB\""), Instruction::DSTR(vec![0x41, 0x42]));
    assert_eq!(one("DSTR \"\""), Instruction::DSTR(vec![]));
    assert_eq!(
        assemble_DSTR(&lexemes("DSTR \"AB\" NOP"), 1),
        Ok((Instruction::DSTR(vec![0x41, 0x42]), 2))
    );
}

#[test]
fn dstr_with_a_tag_byte() {
    assert_eq!(one("DSTR \"AB\" 0x12"), Instruction::DSTR(vec![0x1241, 0x1242]));
    assert_eq!(one("DSTR \"AB\" 0x3412"), Instruction::DSTR(vec![0x1241, 0x1242]));
    assert_eq!(one("DSTR \"A\" -1"), Instruction::DSTR(vec![0xFF41]));
    assert_eq!(one("DSTR \"A\" 0"), Instruction::DSTR(vec![0x0041]));
    assert_eq!(one("DSTR \"☃\" 1"), Instruction::DSTR(vec![0x0103]));
    assert_eq!(one("DSTR \"\" 7"), Instruction::DSTR(vec![]));
}

#[test]
fn dstr_leaves_the_next_statement_alone() {
    assert_eq!(
        program("DSTR \"A\" NOP DSTR \"B\" 1 HALT"),
        vec![
            Instruction::DSTR(vec![0x41]),
            Instruction::NOP,
            Instruction::DSTR(vec![0x0142]),
            Instruction::HALT,
        ]
    );
}

#[test]
fn dstr_statement_malformed() {
    assert_eq!(
        syntax_error("DSTR 5"),
        SyntaxError::UnexpectedToken {
            context: Context::Dstr,
            expected: Expected::String,
            found: Token::Number(5),
            position: 1,
        }
    );
    assert_eq!(
        syntax_error("DSTR"),
        SyntaxError::UnexpectedEnd { context: Context::Dstr, expected: Expected::String }
    );
    assert_eq!(
        syntax_error("DSTR \"A\" + x"),
        SyntaxError::UnexpectedToken {
            context: Context::Dstr,
            expected: Expected::Number,
            found: Token::Identifier,
            position: 3,
        }
    );
    assert_eq!(
        syntax_error("DSTR \"A\" -"),
        SyntaxError::UnexpectedEnd { context: Context::SignedNumber, expected: Expected::Number }
    );
}

#[test]
fn match_keyword_reads_after_the_mnemonic() {
    let tokens = lexemes("SUB [A+B] 9 NOP");
    assert_eq!(
        match_keyword(&tokens, 1, Keyword::SUB),
        Ok((
            Instruction::SUB(
                Target::FromMem(FromMem::TwoRegister(Register::A, false, Register::B)),
                Target::Literal(Literal::Number(9)),
            ),
            7
        ))
    );
    assert_eq!(match_keyword(&tokens, 8, Keyword::RET), Ok((Instruction::RET, 8)));
}

#[test]
fn first_syntax_error_wins() {
    assert_eq!(
        syntax_error("NOP NEG [A+] ADD"),
        SyntaxError::UnexpectedToken {
            context: Context::FromMem,
            expected: Expected::RegisterNumberOrIdentifier,
            found: Token::CloseBracket,
            position: 5,
        }
    );
}

#[test]
fn instruction_parts_by_shape() {
    assert!(matches!(Instruction::NOP.parts(), Parts::Nullary(Keyword::NOP)));
    let jump = Instruction::JMP(Target::Register(Register::B));
    assert!(matches!(
        jump.parts(),
        Parts::Unary(Keyword::JMP, Target::Register(Register::B))
    ));
    let compare = Instruction::CMP(Target::Register(Register::A), Target::Register(Register::C));
    assert!(matches!(
        compare.parts(),
        Parts::Binary(Keyword::CMP, Target::Register(Register::A), Target::Register(Register::C))
    ));
    let constant = Instruction::CONST("X".to_string(), 3);
    assert!(matches!(constant.parts(), Parts::Const(_, 3)));
    assert!(matches!(Instruction::DATA(vec![1]).parts(), Parts::Data(_)));
    assert!(matches!(Instruction::DSTR(vec![1]).parts(), Parts::Dstr(_)));
    assert!(matches!(Instruction::MARK("m".to_string()).parts(), Parts::Mark(_)));
}

#[test]
fn literal_and_memory_operand_clone() {
    let literal = Literal::Identifier(true, "x".to_string());
    assert_eq!(literal.clone(), literal);
    let memory = FromMem::TwoRegisterLiteral(Register::A, true, Register::B, literal);
    assert_eq!(memory.clone(), memory);
    assert_eq!(FromMem::Register(Register::C).clone(), FromMem::Register(Register::C));
    assert_eq!(Literal::Number(4).clone(), Literal::Number(4));
}
