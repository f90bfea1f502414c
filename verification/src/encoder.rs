//! Turning instructions into words: the first pass encodes what it can and
//! collects the symbols, the second pass resolves what was left pending.

use vstd::prelude::*;
use vstd::hash_map::StringHashMap;
use crate::error::{AssembleError, AssembleErrorView, SyntaxError};
use crate::keywords::{base_opcode, register_offset, Register};
use crate::parser::{
    signed_number, spec_signed_number, FromMem, FromMemView, Instruction, InstructionView,
    Literal, LiteralView, Parts, Target, TargetView,
};

verus! {

/// One slot of the image after the first pass: a finished word, a bare
/// reference to a symbol, or a memory-addressing word whose offset is a
/// symbol.
#[derive(Debug, PartialEq, Eq)]
pub enum Byte {
    Definite(u16),
    Identifier(bool, String),
    FromMemWithIdentifier(FromMem),
}

/// The mathematical value of a [`Byte`].
pub enum ByteView {
    Definite(u16),
    Identifier(bool, Seq<char>),
    FromMemWithIdentifier(FromMemView),
}

impl View for Byte {
    type V = ByteView;

    open spec fn view(&self) -> ByteView {
        match self {
            Byte::Definite(value) => ByteView::Definite(*value),
            Byte::Identifier(negative, name) => ByteView::Identifier(*negative, name@),
            Byte::FromMemWithIdentifier(from_mem) => ByteView::FromMemWithIdentifier(from_mem@),
        }
    }
}

/// The views of a sequence of slots, one for one.
pub open spec fn bytes_view(bytes: Seq<Byte>) -> Seq<ByteView> {
    Seq::new(bytes.len(), |i: int| bytes[i]@)
}

/// The symbols of one assembly: every name defined by `CONST` or `MARK`
/// with its value. A name is defined at most once.
pub struct SymbolTable {
    map: StringHashMap<u16>,
}

impl View for SymbolTable {
    type V = Map<Seq<char>, u16>;

    closed spec fn view(&self) -> Map<Seq<char>, u16> {
        self.map@
    }
}

impl SymbolTable {
    /// A table with no symbol in it.
    pub fn new() -> (table: Self)
        ensures
            table@ == Map::<Seq<char>, u16>::empty(),
    {
        SymbolTable { map: StringHashMap::new() }
    }

    /// Defines `name` as `value`, unless the name is taken: then the table
    /// stays as it is and the name comes back in the error.
    pub fn define(&mut self, name: &String, value: u16) -> (result: Result<(), AssembleError>)
        ensures
            match result {
                Ok(()) => !old(self)@.contains_key(name@) && final(self)@ == old(self)@.insert(
                    name@,
                    value,
                ),
                Err(error) => old(self)@.contains_key(name@) && final(self)@ == old(self)@
                    && error@ == AssembleErrorView::DuplicateSymbol(name@),
            },
    {
        if self.map.contains_key(name.as_str()) {
            Err(AssembleError::DuplicateSymbol(name.clone()))
        } else {
            self.map.insert(name.clone(), value);
            Ok(())
        }
    }

    /// The value of `name`, if it is defined.
    pub fn lookup(&self, name: &str) -> (value: Option<u16>)
        ensures
            value == (if self@.contains_key(name@) {
                Some(self@[name@])
            } else {
                None
            }),
    {
        match self.map.get(name) {
            Some(value) => Some(*value),
            None => None,
        }
    }
}

/// What an operand adds to the base opcode: a register's ordinal, 8 for a
/// literal, 9 for a memory operand.
pub open spec fn spec_target_offset(target: TargetView) -> u16 {
    match target {
        TargetView::Register(register) => register.ordinal(),
        TargetView::Literal(_) => 8,
        TargetView::FromMem(_) => 9,
    }
}

/// The word of `[lhs±rhs]`: the first register in bits 0 to 2, bit 3 set,
/// the second register in bits 4 to 6, and bit 7 set for a subtraction.
pub open spec fn spec_two_register_word(lhs: Register, rhs: Register, subtract: bool) -> u16 {
    (lhs.ordinal() + 8 + 16 * rhs.ordinal() + (if subtract {
        128int
    } else {
        0int
    })) as u16
}

/// The word of `[reg±offset]`: the register in bits 0 to 2 and the offset,
/// modulo 2^12, in bits 4 to 15.
pub open spec fn spec_register_literal_word(reg: Register, offset: u16) -> u16 {
    (reg.ordinal() + 16 * (offset % 4096)) as u16
}

/// The word of `[lhs±rhs±offset]`: the two-register byte, and the offset,
/// modulo 2^8, in bits 8 to 15.
pub open spec fn spec_two_register_literal_word(
    lhs: Register,
    rhs: Register,
    subtract: bool,
    offset: u16,
) -> u16 {
    (spec_two_register_word(lhs, rhs, subtract) + 256 * (offset % 256)) as u16
}

/// The slot of a memory operand after the first pass: finished unless its
/// offset is a symbol.
pub open spec fn spec_from_mem_partial_encode(data: FromMemView) -> ByteView {
    match data {
        FromMemView::Register(reg) => ByteView::Definite(reg.ordinal()),
        FromMemView::RegisterLiteral(reg, LiteralView::Number(value)) => ByteView::Definite(
            spec_register_literal_word(reg, value),
        ),
        FromMemView::TwoRegister(lhs, subtract, rhs) => ByteView::Definite(
            spec_two_register_word(lhs, rhs, subtract),
        ),
        FromMemView::TwoRegisterLiteral(lhs, subtract, rhs, LiteralView::Number(value)) => {
            ByteView::Definite(spec_two_register_literal_word(lhs, rhs, subtract, value))
        },
        _ => ByteView::FromMemWithIdentifier(data),
    }
}

/// The slots that follow the opcode for one operand: none for a register,
/// one for a literal or a memory operand.
pub open spec fn spec_operand_words(target: TargetView) -> Seq<ByteView> {
    match target {
        TargetView::Register(_) => seq![],
        TargetView::Literal(LiteralView::Number(value)) => seq![ByteView::Definite(value)],
        TargetView::Literal(LiteralView::Identifier(negative, name)) => seq![
            ByteView::Identifier(negative, name),
        ],
        TargetView::FromMem(from_mem) => seq![spec_from_mem_partial_encode(from_mem)],
    }
}

/// The slots of a one-operand instruction.
pub open spec fn spec_encode_one_op(base_op: u16, target: TargetView) -> Seq<ByteView> {
    seq![ByteView::Definite((base_op + spec_target_offset(target)) as u16)] + spec_operand_words(
        target,
    )
}

/// The slots of a two-operand instruction whose second operand is no
/// memory operand.
pub open spec fn spec_encode_two_op(base_op: u16, lhs: TargetView, rhs: TargetView) -> Seq<
    ByteView,
> {
    seq![
        ByteView::Definite(
            (base_op + spec_target_offset(lhs) + 10 * spec_target_offset(rhs)) as u16,
        ),
    ] + spec_operand_words(lhs) + spec_operand_words(rhs)
}

/// What an operand adds to the base opcode.
pub fn target_offset(target: &Target) -> (offset: u16)
    ensures
        offset == spec_target_offset(target@),
        offset <= 9,
{
    match target {
        Target::Register(register) => register_offset(register),
        Target::Literal(_) => 8,
        Target::FromMem(_) => 9,
    }
}

/// The word of a two-register memory operand without an offset.
pub fn encode_two_register_from_mem(lhs: &Register, rhs: &Register, subtract: bool) -> (word: u16)
    ensures
        word == spec_two_register_word(*lhs, *rhs, subtract),
        word < 256,
{
    let left: u16 = register_offset(lhs);
    let right: u16 = register_offset(rhs);
    let flag: u16 = if subtract {
        0b1000_0000
    } else {
        0
    };
    assert((left | 0b1000 | (right << 4) | flag) == left + 8 + 16 * right + flag) by (bit_vector)
        requires
            left <= 7,
            right <= 7,
            flag == 0 || flag == 128,
    ;
    left | 0b1000 | (right << 4) | flag
}

/// The slot of a memory operand after the first pass.
pub fn from_mem_partial_encode(data: &FromMem) -> (slot: Byte)
    ensures
        slot@ == spec_from_mem_partial_encode(data@),
{
    match data {
        FromMem::Register(reg) => Byte::Definite(register_offset(reg)),
        FromMem::RegisterLiteral(reg, literal) => match literal {
            Literal::Number(value) => Byte::Definite(register_literal_word(reg, *value)),
            Literal::Identifier(_, _) => Byte::FromMemWithIdentifier(data.clone()),
        },
        FromMem::TwoRegister(lhs, subtract, rhs) => Byte::Definite(
            encode_two_register_from_mem(lhs, rhs, *subtract),
        ),
        FromMem::TwoRegisterLiteral(lhs, subtract, rhs, literal) => match literal {
            Literal::Number(value) => Byte::Definite(
                two_register_literal_word(lhs, rhs, *subtract, *value),
            ),
            Literal::Identifier(_, _) => Byte::FromMemWithIdentifier(data.clone()),
        },
    }
}

/// Packs a register and an offset into the word of `[reg±offset]`.
pub fn register_literal_word(reg: &Register, offset: u16) -> (word: u16)
    ensures
        word == spec_register_literal_word(*reg, offset),
{
    let low: u16 = register_offset(reg);
    assert((low | (offset << 4)) == low + 16 * (offset % 4096)) by (bit_vector)
        requires
            low <= 7,
    ;
    low | (offset << 4)
}

/// Packs two registers, their sign and an offset into the word of
/// `[lhs±rhs±offset]`.
pub fn two_register_literal_word(
    lhs: &Register,
    rhs: &Register,
    subtract: bool,
    offset: u16,
) -> (word: u16)
    ensures
        word == spec_two_register_literal_word(*lhs, *rhs, subtract, offset),
{
    let low: u16 = encode_two_register_from_mem(lhs, rhs, subtract);
    assert((low | (offset << 8)) == low + 256 * (offset % 256)) by (bit_vector)
        requires
            low < 256,
    ;
    low | (offset << 8)
}

/// Appends the slots that follow the opcode for one operand.
fn push_operand_words(data: &mut Vec<Byte>, target: &Target)
    ensures
        bytes_view(final(data)@) == bytes_view(old(data)@) + spec_operand_words(target@),
{
    match target {
        Target::Register(_) => (),
        Target::Literal(literal) => match literal {
            Literal::Number(value) => data.push(Byte::Definite(*value)),
            Literal::Identifier(negative, identifier) => data.push(
                Byte::Identifier(*negative, identifier.clone()),
            ),
        },
        Target::FromMem(from_mem) => data.push(from_mem_partial_encode(from_mem)),
    }
}

/// Encodes a one-operand instruction: the opcode with the operand's
/// offset, then the operand's own word if it has one.
pub fn encode_one_op_instruction(base_op: u16, target: &Target) -> (data: Vec<Byte>)
    requires
        base_op + 9 <= u16::MAX,
    ensures
        bytes_view(data@) == spec_encode_one_op(base_op, target@),
{
    let mut data: Vec<Byte> = Vec::new();
    data.push(Byte::Definite(base_op + target_offset(target)));
    push_operand_words(&mut data, target);
    data
}

/// Encodes a two-operand instruction: the opcode with both operands'
/// offsets, then the first operand's word and the second's. A memory
/// operand in second position is refused.
pub fn encode_two_op_instruction(base_op: u16, lhs: &Target, rhs: &Target) -> (result: Result<
    Vec<Byte>,
    AssembleError,
>)
    requires
        base_op + 89 <= u16::MAX,
    ensures
        match result {
            Ok(data) => !(rhs@ is FromMem) && bytes_view(data@) == spec_encode_two_op(
                base_op,
                lhs@,
                rhs@,
            ),
            Err(error) => rhs@ is FromMem && error@ == AssembleErrorView::Syntax(
                SyntaxError::SecondOperandFromMem,
            ),
        },
{
    match rhs {
        Target::FromMem(_) => Err(AssembleError::Syntax(SyntaxError::SecondOperandFromMem)),
        _ => {
            let mut data: Vec<Byte> = Vec::new();
            data.push(
                Byte::Definite(base_op + target_offset(lhs) + target_offset(rhs) * 10),
            );
            push_operand_words(&mut data, lhs);
            push_operand_words(&mut data, rhs);
            Ok(data)
        },
    }
}

/// The slots an instruction emits, whatever the symbols are. `CONST` and
/// `MARK` emit nothing; the data forms emit their values; a machine
/// instruction emits its opcode and its operands' words.
pub open spec fn spec_instruction_words(instruction: InstructionView) -> Result<
    Seq<ByteView>,
    AssembleErrorView,
> {
    match instruction {
        InstructionView::Const(_, _) | InstructionView::Mark(_) => Ok(seq![]),
        InstructionView::Data(data) | InstructionView::Dstr(data) => Ok(
            Seq::new(data.len(), |i: int| ByteView::Definite(data[i])),
        ),
        InstructionView::Nullary(keyword) => Ok(seq![ByteView::Definite(keyword.base_opcode())]),
        InstructionView::Unary(keyword, target) => Ok(
            spec_encode_one_op(keyword.base_opcode(), target),
        ),
        InstructionView::Binary(keyword, lhs, rhs) => if rhs is FromMem {
            Err(AssembleErrorView::Syntax(SyntaxError::SecondOperandFromMem))
        } else {
            Ok(spec_encode_two_op(keyword.base_opcode(), lhs, rhs))
        },
    }
}

/// The symbol an instruction defines when it stands at word address
/// `address`: `CONST` gives its own value, `MARK` the address.
pub open spec fn spec_definition(instruction: InstructionView, address: u16) -> Option<
    (Seq<char>, u16),
> {
    match instruction {
        InstructionView::Const(name, value) => Some((name, value)),
        InstructionView::Mark(name) => Some((name, address)),
        _ => None,
    }
}

/// One step of the first pass: the slots the instruction emits and the
/// symbols after it, or the error it ends in.
pub open spec fn spec_partially_encode(
    instruction: InstructionView,
    symbols: Map<Seq<char>, u16>,
    address: u16,
) -> Result<(Seq<ByteView>, Map<Seq<char>, u16>), AssembleErrorView> {
    match spec_definition(instruction, address) {
        Some((name, value)) => if symbols.contains_key(name) {
            Err(AssembleErrorView::DuplicateSymbol(name))
        } else {
            Ok((seq![], symbols.insert(name, value)))
        },
        None => match spec_instruction_words(instruction) {
            Ok(words) => Ok((words, symbols)),
            Err(error) => Err(error),
        },
    }
}

/// One finished slot for each value.
fn definite_words(values: &Vec<u16>) -> (data: Vec<Byte>)
    ensures
        bytes_view(data@) == Seq::new(values@.len(), |i: int| ByteView::Definite(values@[i])),
{
    let mut data: Vec<Byte> = Vec::new();
    let mut i: usize = 0;
    while i < values.len()
        invariant
            i <= values.len(),
            data@.len() == i,
            forall|j: int| 0 <= j < i ==> (#[trigger] data@[j])@ == ByteView::Definite(values@[j]),
        decreases values.len() - i,
    {
        data.push(Byte::Definite(values[i]));
        i += 1;
    }
    data
}

/// One finished slot holding `word`.
fn single_word(word: u16) -> (data: Vec<Byte>)
    ensures
        bytes_view(data@) == seq![ByteView::Definite(word)],
{
    let mut data: Vec<Byte> = Vec::new();
    data.push(Byte::Definite(word));
    data
}

/// The first pass over one instruction that stands at word address
/// `byte_address`. `CONST` and `MARK` define their symbol and emit
/// nothing; every other instruction emits its slots and leaves the symbols
/// alone. On an error the symbols are unchanged.
pub fn partially_encode(
    instruction: &Instruction,
    constants: &mut SymbolTable,
    byte_address: u16,
) -> (result: Result<Vec<Byte>, AssembleError>)
    ensures
        match result {
            Ok(data) => {
                &&& spec_partially_encode(instruction@, old(constants)@, byte_address)
                    matches Ok((words, symbols))
                &&& bytes_view(data@) == words
                &&& final(constants)@ == symbols
            },
            Err(error) => {
                &&& spec_partially_encode(instruction@, old(constants)@, byte_address)
                    matches Err(expected)
                &&& error@ == expected
                &&& final(constants)@ == old(constants)@
            },
        },
{
    match instruction.parts() {
        Parts::Const(name, value) => {
            match constants.define(name, value) {
                Ok(()) => Ok(Vec::new()),
                Err(error) => Err(error),
            }
        },
        Parts::Mark(name) => {
            match constants.define(name, byte_address) {
                Ok(()) => Ok(Vec::new()),
                Err(error) => Err(error),
            }
        },
        Parts::Data(data) | Parts::Dstr(data) => Ok(definite_words(data)),
        Parts::Nullary(keyword) => Ok(single_word(base_opcode(keyword))),
        Parts::Unary(keyword, target) => Ok(
            encode_one_op_instruction(base_opcode(keyword), target),
        ),
        Parts::Binary(keyword, lhs, rhs) => encode_two_op_instruction(
            base_opcode(keyword),
            lhs,
            rhs,
        ),
    }
}

/// The value a literal stands for under the given symbols: a number is
/// its own value, a name is its symbol's value under the literal's sign.
/// `None` where the name is not defined.
pub open spec fn spec_resolve_literal(symbols: Map<Seq<char>, u16>, literal: LiteralView) -> Option<
    u16,
> {
    match literal {
        LiteralView::Number(value) => Some(value),
        LiteralView::Identifier(negative, name) => if symbols.contains_key(name) {
            Some(spec_signed_number(negative, symbols[name]))
        } else {
            None
        },
    }
}

/// The final word of a memory operand under the given symbols: the
/// register and flag bits of the first pass, with the resolved offset in
/// bits 4 to 15 (one register) or 8 to 15 (two registers).
pub open spec fn spec_resolve_from_mem(symbols: Map<Seq<char>, u16>, data: FromMemView) -> Option<
    u16,
> {
    match data {
        FromMemView::Register(reg) => Some(reg.ordinal()),
        FromMemView::RegisterLiteral(reg, literal) => match spec_resolve_literal(symbols, literal) {
            Some(offset) => Some(spec_register_literal_word(reg, offset)),
            None => None,
        },
        FromMemView::TwoRegister(lhs, subtract, rhs) => Some(
            spec_two_register_word(lhs, rhs, subtract),
        ),
        FromMemView::TwoRegisterLiteral(lhs, subtract, rhs, literal) => match spec_resolve_literal(
            symbols,
            literal,
        ) {
            Some(offset) => Some(spec_two_register_literal_word(lhs, rhs, subtract, offset)),
            None => None,
        },
    }
}

/// The final word of a slot under the given symbols, `None` where the
/// slot refers to a name that is not defined.
pub open spec fn spec_resolve(symbols: Map<Seq<char>, u16>, slot: ByteView) -> Option<u16> {
    match slot {
        ByteView::Definite(value) => Some(value),
        ByteView::Identifier(negative, name) => spec_resolve_literal(
            symbols,
            LiteralView::Identifier(negative, name),
        ),
        ByteView::FromMemWithIdentifier(data) => spec_resolve_from_mem(symbols, data),
    }
}

/// The name a slot refers to, if it refers to one.
pub open spec fn spec_referenced_name(slot: ByteView) -> Option<Seq<char>> {
    match slot {
        ByteView::Identifier(_, name) => Some(name),
        ByteView::FromMemWithIdentifier(
            FromMemView::RegisterLiteral(_, LiteralView::Identifier(_, name)),
        ) => Some(name),
        ByteView::FromMemWithIdentifier(
            FromMemView::TwoRegisterLiteral(_, _, _, LiteralView::Identifier(_, name)),
        ) => Some(name),
        _ => None,
    }
}

/// The second pass: every slot resolved in order, or the error of the
/// first slot whose name is not defined.
pub open spec fn spec_encode_identifiers(
    symbols: Map<Seq<char>, u16>,
    slots: Seq<ByteView>,
) -> Result<Seq<u16>, AssembleErrorView>
    decreases slots.len(),
{
    if slots.len() == 0 {
        Ok(seq![])
    } else {
        match spec_encode_identifiers(symbols, slots.drop_last()) {
            Err(error) => Err(error),
            Ok(words) => match spec_resolve(symbols, slots.last()) {
                Some(word) => Ok(words.push(word)),
                None => Err(
                    AssembleErrorView::UndefinedSymbol(spec_referenced_name(slots.last())->0),
                ),
            },
        }
    }
}

/// The second pass succeeds exactly when every slot resolves, and then
/// gives each slot's word in place; it fails with the name of the first
/// slot that does not resolve.
pub proof fn lemma_encode_identifiers(symbols: Map<Seq<char>, u16>, slots: Seq<ByteView>)
    ensures
        match spec_encode_identifiers(symbols, slots) {
            Ok(words) => words.len() == slots.len() && forall|i: int|
                0 <= i < slots.len() ==> spec_resolve(symbols, #[trigger] slots[i]) == Some(
                    words[i],
                ),
            Err(error) => exists|i: int|
                0 <= i < slots.len() && spec_resolve(symbols, #[trigger] slots[i]) is None
                    && error == AssembleErrorView::UndefinedSymbol(
                    spec_referenced_name(slots[i])->0,
                ) && forall|j: int|
                    0 <= j < i ==> spec_resolve(symbols, #[trigger] slots[j]) is Some,
        },
    decreases slots.len(),
{
    if slots.len() > 0 {
        let front = slots.drop_last();
        lemma_encode_identifiers(symbols, front);
        match spec_encode_identifiers(symbols, front) {
            Ok(words) => {
                assert forall|j: int| 0 <= j < front.len() implies spec_resolve(
                    symbols,
                    #[trigger] slots[j],
                ) is Some by {
                    assert(slots[j] == front[j]);
                }
                match spec_resolve(symbols, slots.last()) {
                    Some(word) => {
                        let all = words.push(word);
                        assert forall|i: int| 0 <= i < slots.len() implies spec_resolve(
                            symbols,
                            #[trigger] slots[i],
                        ) == Some(all[i]) by {
                            if i < front.len() {
                                assert(slots[i] == front[i]);
                            }
                        }
                    },
                    None => {
                        let last = slots.len() - 1;
                        assert(spec_resolve(symbols, slots[last]) is None);
                    },
                }
            },
            Err(error) => {
                let i = choose|i: int|
                    0 <= i < front.len() && spec_resolve(symbols, #[trigger] front[i]) is None
                        && error == AssembleErrorView::UndefinedSymbol(
                        spec_referenced_name(front[i])->0,
                    ) && forall|j: int|
                        0 <= j < i ==> spec_resolve(symbols, #[trigger] front[j]) is Some;
                assert(slots[i] == front[i]);
                assert forall|j: int| 0 <= j < i implies spec_resolve(
                    symbols,
                    #[trigger] slots[j],
                ) is Some by {
                    assert(slots[j] == front[j]);
                }
            },
        }
    }
}

/// Resolves a literal against the symbols; the error names the symbol
/// that is not defined.
pub fn resolve_literal(constants: &SymbolTable, literal: &Literal) -> (result: Result<
    u16,
    AssembleError,
>)
    ensures
        match result {
            Ok(value) => spec_resolve_literal(constants@, literal@) == Some(value),
            Err(error) => {
                &&& spec_resolve_literal(constants@, literal@) is None
                &&& literal@ matches LiteralView::Identifier(_, name)
                &&& error@ == AssembleErrorView::UndefinedSymbol(name)
            },
        },
{
    match literal {
        Literal::Number(value) => Ok(*value),
        Literal::Identifier(negative, name) => match constants.lookup(name.as_str()) {
            Some(value) => Ok(signed_number(*negative, value)),
            None => Err(AssembleError::UndefinedSymbol(name.clone())),
        },
    }
}

/// Computes the final word of a memory operand.
pub fn resolve_from_mem(constants: &SymbolTable, data: &FromMem) -> (result: Result<
    u16,
    AssembleError,
>)
    ensures
        match result {
            Ok(word) => spec_resolve_from_mem(constants@, data@) == Some(word),
            Err(error) => spec_resolve_from_mem(constants@, data@) is None && error@
                == AssembleErrorView::UndefinedSymbol(
                spec_referenced_name(ByteView::FromMemWithIdentifier(data@))->0,
            ),
        },
{
    match data {
        FromMem::Register(reg) => Ok(register_offset(reg)),
        FromMem::RegisterLiteral(reg, literal) => match resolve_literal(constants, literal) {
            Ok(offset) => Ok(register_literal_word(reg, offset)),
            Err(error) => Err(error),
        },
        FromMem::TwoRegister(lhs, subtract, rhs) => Ok(
            encode_two_register_from_mem(lhs, rhs, *subtract),
        ),
        FromMem::TwoRegisterLiteral(lhs, subtract, rhs, literal) => match resolve_literal(
            constants,
            literal,
        ) {
            Ok(offset) => Ok(two_register_literal_word(lhs, rhs, *subtract, offset)),
            Err(error) => Err(error),
        },
    }
}

/// Computes the final word of one slot.
pub fn resolve(constants: &SymbolTable, slot: &Byte) -> (result: Result<u16, AssembleError>)
    ensures
        match result {
            Ok(word) => spec_resolve(constants@, slot@) == Some(word),
            Err(error) => spec_resolve(constants@, slot@) is None && error@
                == AssembleErrorView::UndefinedSymbol(spec_referenced_name(slot@)->0),
        },
{
    match slot {
        Byte::Definite(value) => Ok(*value),
        Byte::Identifier(negative, name) => match constants.lookup(name.as_str()) {
            Some(value) => Ok(signed_number(*negative, value)),
            None => Err(AssembleError::UndefinedSymbol(name.clone())),
        },
        Byte::FromMemWithIdentifier(from_mem) => resolve_from_mem(constants, from_mem),
    }
}

/// The second pass: replaces every pending slot by its final word. Fails
/// on the first slot that refers to an undefined symbol, and then hands
/// out no word at all.
pub fn encode_identifiers(constants: &SymbolTable, partially_encoded_file: &Vec<Byte>) -> (result:
    Result<Vec<u16>, AssembleError>)
    ensures
        match result {
            Ok(words) => {
                &&& spec_encode_identifiers(constants@, bytes_view(partially_encoded_file@))
                    matches Ok(expected)
                &&& words@ == expected
                &&& words@.len() == partially_encoded_file@.len()
                &&& forall|i: int|
                    0 <= i < partially_encoded_file@.len() ==> spec_resolve(
                        constants@,
                        (#[trigger] partially_encoded_file@[i])@,
                    ) == Some(words@[i])
            },
            Err(error) => {
                &&& spec_encode_identifiers(constants@, bytes_view(partially_encoded_file@))
                    matches Err(expected)
                &&& error@ == expected
                &&& exists|i: int|
                    0 <= i < partially_encoded_file@.len() && spec_resolve(
                        constants@,
                        (#[trigger] partially_encoded_file@[i])@,
                    ) is None && error@ == AssembleErrorView::UndefinedSymbol(
                        spec_referenced_name(partially_encoded_file@[i]@)->0,
                    ) && forall|j: int|
                        0 <= j < i ==> spec_resolve(
                            constants@,
                            (#[trigger] partially_encoded_file@[j])@,
                        ) is Some
            },
        },
{
    let ghost slots = bytes_view(partially_encoded_file@);
    let mut encoded_file: Vec<u16> = Vec::new();
    let mut i: usize = 0;
    while i < partially_encoded_file.len()
        invariant
            i <= partially_encoded_file.len(),
            slots == bytes_view(partially_encoded_file@),
            spec_encode_identifiers(constants@, slots.take(i as int)) matches Ok(words)
                && words == encoded_file@,
        decreases partially_encoded_file.len() - i,
    {
        let resolved = resolve(constants, &partially_encoded_file[i]);
        proof {
            lemma_encode_identifiers_step(constants@, slots, i as int);
        }
        match resolved {
            Ok(word) => {
                encoded_file.push(word);
            },
            Err(error) => {
                proof {
                    lemma_encode_identifiers_prefix_error(constants@, slots, i + 1);
                    lemma_encode_identifiers_indexed(constants@, partially_encoded_file@);
                }
                return Err(error);
            },
        }
        i += 1;
    }
    proof {
        assert(slots.take(i as int) == slots);
        lemma_encode_identifiers_indexed(constants@, partially_encoded_file@);
    }
    Ok(encoded_file)
}

/// The second pass over one slot more: the pass over the slots before
/// it, then that slot.
proof fn lemma_encode_identifiers_step(symbols: Map<Seq<char>, u16>, slots: Seq<ByteView>, i: int)
    requires
        0 <= i < slots.len(),
    ensures
        spec_encode_identifiers(symbols, slots.take(i + 1)) == (match spec_encode_identifiers(
            symbols,
            slots.take(i),
        ) {
            Err(error) => Err(error),
            Ok(words) => match spec_resolve(symbols, slots[i]) {
                Some(word) => Ok(words.push(word)),
                None => Err(AssembleErrorView::UndefinedSymbol(spec_referenced_name(slots[i])->0)),
            },
        }),
{
    assert(slots.take(i + 1).drop_last() == slots.take(i));
    assert(slots.take(i + 1).last() == slots[i]);
}

/// What [`lemma_encode_identifiers`] says, over the slots themselves.
proof fn lemma_encode_identifiers_indexed(symbols: Map<Seq<char>, u16>, bytes: Seq<Byte>)
    ensures
        match spec_encode_identifiers(symbols, bytes_view(bytes)) {
            Ok(words) => words.len() == bytes.len() && forall|i: int|
                0 <= i < bytes.len() ==> spec_resolve(symbols, (#[trigger] bytes[i])@) == Some(
                    words[i],
                ),
            Err(error) => exists|i: int|
                0 <= i < bytes.len() && spec_resolve(symbols, (#[trigger] bytes[i])@) is None
                    && error == AssembleErrorView::UndefinedSymbol(
                    spec_referenced_name(bytes[i]@)->0,
                ) && forall|j: int|
                    0 <= j < i ==> spec_resolve(symbols, (#[trigger] bytes[j])@) is Some,
        },
{
    let slots = bytes_view(bytes);
    lemma_encode_identifiers(symbols, slots);
    match spec_encode_identifiers(symbols, slots) {
        Ok(words) => {
            assert forall|i: int| 0 <= i < bytes.len() implies spec_resolve(
                symbols,
                (#[trigger] bytes[i])@,
            ) == Some(words[i]) by {
                assert(slots[i] == bytes[i]@);
            }
        },
        Err(error) => {
            let i = choose|i: int|
                0 <= i < slots.len() && spec_resolve(symbols, #[trigger] slots[i]) is None && error
                    == AssembleErrorView::UndefinedSymbol(spec_referenced_name(slots[i])->0)
                    && forall|j: int|
                    0 <= j < i ==> spec_resolve(symbols, #[trigger] slots[j]) is Some;
            assert(slots[i] == bytes[i]@);
            assert forall|j: int| 0 <= j < i implies spec_resolve(
                symbols,
                (#[trigger] bytes[j])@,
            ) is Some by {
                assert(slots[j] == bytes[j]@);
            }
        },
    }
}

/// An error of the second pass on a prefix is the error on the whole.
proof fn lemma_encode_identifiers_prefix_error(
    symbols: Map<Seq<char>, u16>,
    slots: Seq<ByteView>,
    n: int,
)
    requires
        0 <= n <= slots.len(),
        spec_encode_identifiers(symbols, slots.take(n)) is Err,
    ensures
        spec_encode_identifiers(symbols, slots) == spec_encode_identifiers(symbols, slots.take(n)),
    decreases slots.len(),
{
    if n < slots.len() {
        assert(slots.drop_last().take(n) == slots.take(n));
        lemma_encode_identifiers_prefix_error(symbols, slots.drop_last(), n);
    } else {
        assert(slots.take(n) == slots);
    }
}

} // verus!
