//! Splitting source text into tokens.

use vstd::prelude::*;
use vstd::slice::slice_subrange;
use crate::error::{AssembleError, AssembleErrorView, LexError, LexErrorKind};
use crate::keywords::{Keyword, Register};

verus! {

/// The class of a lexeme. `Whitespace`, `Comment` and `Separator` are
/// recognised and dropped: they never reach the parser.
#[derive(Clone, Copy, Debug, PartialEq, Eq, Structural)]
pub enum Token {
    Error,
    Whitespace,
    Comment,
    Keyword(Keyword),
    Register(Register),
    Separator,
    OpenBracket,
    CloseBracket,
    String,
    Number(u16),
    Operator,
    Identifier,
}

/// A token with the source text it was read from. Only tokens that reach
/// the parser make a lexeme; the text of a sign is that sign, and the
/// text of a string literal holds its two quotes.
#[derive(Debug, PartialEq, Eq)]
pub struct Lexeme {
    token: Token,
    text: String,
}

/// The mathematical value of a [`Lexeme`].
pub struct LexemeView {
    pub token: Token,
    pub text: Seq<char>,
}

impl View for Lexeme {
    type V = LexemeView;

    closed spec fn view(&self) -> LexemeView {
        LexemeView { token: self.token, text: self.text@ }
    }
}

impl LexemeView {
    /// What holds of every lexeme: its token is none of those that are
    /// dropped or stand for an error, an operator's text is a single
    /// sign, and a string's text has room for its two quotes.
    pub open spec fn well_formed(self) -> bool {
        match self.token {
            Token::Error | Token::Whitespace | Token::Comment | Token::Separator => false,
            Token::Operator => self.text == seq!['+'] || self.text == seq!['-'],
            Token::String => self.text.len() >= 2,
            _ => true,
        }
    }
}

impl Lexeme {
    #[verifier::type_invariant]
    spec fn holds(self) -> bool {
        self@.well_formed()
    }

    /// Makes a lexeme of a token and its text, unless the two do not go
    /// together.
    pub fn new(token: Token, text: &str) -> (lexeme: Option<Lexeme>)
        ensures
            match lexeme {
                Some(lexeme) => lexeme@ == (LexemeView { token, text: text@ })
                    && lexeme@.well_formed(),
                None => !(LexemeView { token, text: text@ }).well_formed(),
            },
    {
        let fits = match token {
            Token::Error | Token::Whitespace | Token::Comment | Token::Separator => false,
            Token::Operator => {
                if text.unicode_len() == 1 {
                    let c: char = text.get_char(0);
                    assert(text@ =~= seq![c]);
                    c == '+' || c == '-'
                } else {
                    false
                }
            },
            Token::String => text.unicode_len() >= 2,
            _ => true,
        };
        if fits {
            Some(Lexeme { token, text: text.to_owned() })
        } else {
            None
        }
    }

    /// The class of the lexeme.
    pub fn token(&self) -> (token: Token)
        ensures
            token == self@.token,
            self@.well_formed(),
    {
        proof {
            use_type_invariant(self);
        }
        self.token
    }

    /// The source text of the lexeme.
    pub fn text(&self) -> (text: &str)
        ensures
            text@ == self@.text,
            self@.well_formed(),
    {
        proof {
            use_type_invariant(self);
        }
        self.text.as_str()
    }
}

/// The views of a sequence of lexemes, one for one.
pub open spec fn lexemes_view(lexemes: Seq<Lexeme>) -> Seq<LexemeView> {
    Seq::new(lexemes.len(), |i: int| lexemes[i]@)
}

/// Every lexeme of the sequence is well formed.
pub open spec fn lexemes_well_formed(lexemes: Seq<LexemeView>) -> bool {
    forall|i: int| 0 <= i < lexemes.len() ==> (#[trigger] lexemes[i]).well_formed()
}

/// Blank, tab, line feed or carriage return.
pub open spec fn spec_is_space(c: char) -> bool {
    c == ' ' || c == '\t' || c == '\n' || c == '\r'
}

/// A decimal digit.
pub open spec fn spec_is_digit(c: char) -> bool {
    '0' <= c <= '9'
}

/// An ASCII letter or an underscore: what a word may start with.
pub open spec fn spec_is_word_start(c: char) -> bool {
    'a' <= c <= 'z' || 'A' <= c <= 'Z' || c == '_'
}

/// An ASCII letter, a decimal digit or an underscore.
pub open spec fn spec_is_word_char(c: char) -> bool {
    spec_is_word_start(c) || spec_is_digit(c)
}

/// The upper-case form of an ASCII letter; any other character unchanged.
pub open spec fn spec_upper(c: char) -> char {
    if 'a' <= c <= 'z' {
        ((c as u8) - 32) as char
    } else {
        c
    }
}

/// The text with every ASCII letter in upper case.
pub open spec fn spec_upper_text(text: Seq<char>) -> Seq<char> {
    Seq::new(text.len(), |i: int| spec_upper(text[i]))
}

/// Whether the character is a blank, a tab, a line feed or a carriage
/// return.
pub fn is_space(c: char) -> (b: bool)
    ensures
        b == spec_is_space(c),
{
    c == ' ' || c == '\t' || c == '\n' || c == '\r'
}

/// Whether the character is a decimal digit.
pub fn is_digit(c: char) -> (b: bool)
    ensures
        b == spec_is_digit(c),
{
    '0' <= c && c <= '9'
}

/// Whether a word may start with the character.
pub fn is_word_start(c: char) -> (b: bool)
    ensures
        b == spec_is_word_start(c),
{
    ('a' <= c && c <= 'z') || ('A' <= c && c <= 'Z') || c == '_'
}

/// Whether a word may go on with the character.
pub fn is_word_char(c: char) -> (b: bool)
    ensures
        b == spec_is_word_char(c),
{
    is_word_start(c) || is_digit(c)
}

/// The upper-case form of an ASCII letter; any other character unchanged.
pub fn upper(c: char) -> (u: char)
    ensures
        u == spec_upper(c),
{
    if 'a' <= c && c <= 'z' {
        ((c as u8) - 32) as char
    } else {
        c
    }
}

/// Where the blanks, separators and comments that start at `pos` end.
/// A comment runs from a semicolon to the end of its line; `in_comment`
/// says that `pos` lies inside one.
pub open spec fn skip_end(s: Seq<char>, pos: int, in_comment: bool) -> int
    decreases s.len() - pos,
{
    if pos < 0 || pos >= s.len() {
        pos
    } else if in_comment {
        skip_end(s, pos + 1, s[pos] != '\n')
    } else if spec_is_space(s[pos]) || s[pos] == ',' {
        skip_end(s, pos + 1, false)
    } else if s[pos] == ';' {
        skip_end(s, pos + 1, true)
    } else {
        pos
    }
}

/// Where the run of word characters that starts at `pos` ends.
pub open spec fn word_end(s: Seq<char>, pos: int) -> int
    decreases s.len() - pos,
{
    if 0 <= pos < s.len() && spec_is_word_char(s[pos]) {
        word_end(s, pos + 1)
    } else {
        pos
    }
}

/// Where the longest identifier that reaches `pos` ends. An identifier
/// is one or more groups, each a letter or underscore followed by word
/// characters and at most one dot; `after_dot` says that the character
/// before `pos` is such a dot.
pub open spec fn identifier_end(s: Seq<char>, pos: int, after_dot: bool) -> int
    decreases s.len() - pos,
{
    if pos < 0 || pos >= s.len() {
        pos
    } else if after_dot {
        if spec_is_word_start(s[pos]) {
            identifier_end(s, pos + 1, false)
        } else {
            pos
        }
    } else if spec_is_word_char(s[pos]) {
        identifier_end(s, pos + 1, false)
    } else if s[pos] == '.' {
        identifier_end(s, pos + 1, true)
    } else {
        pos
    }
}

/// Where the longest string literal ends whose body reaches `pos`, given
/// the end `best` of the longest one found before `pos`. A quote closes
/// the literal; a quote that follows a backslash may also belong to the
/// body, and does so whenever a later quote closes the literal.
pub open spec fn string_end(s: Seq<char>, pos: int, best: Option<int>) -> Option<int>
    decreases s.len() - pos,
{
    if pos < 1 || pos >= s.len() {
        best
    } else if s[pos] == '"' {
        if s[pos - 1] == '\\' {
            string_end(s, pos + 1, Some(pos + 1))
        } else {
            Some(pos + 1)
        }
    } else {
        string_end(s, pos + 1, best)
    }
}

fn skip(chars: &[char], pos: usize) -> (end: usize)
    requires
        pos <= chars@.len(),
    ensures
        end == skip_end(chars@, pos as int, false),
        pos <= end <= chars@.len(),
{
    let mut i: usize = pos;
    let mut in_comment: bool = false;
    while i < chars.len()
        invariant
            pos <= i <= chars@.len(),
            skip_end(chars@, pos as int, false) == skip_end(chars@, i as int, in_comment),
        decreases chars@.len() - i,
    {
        let c: char = chars[i];
        if in_comment {
            in_comment = c != '\n';
        } else if is_space(c) || c == ',' {
        } else if c == ';' {
            in_comment = true;
        } else {
            return i;
        }
        i += 1;
    }
    i
}

fn scan_word(chars: &[char], pos: usize) -> (end: usize)
    requires
        pos <= chars@.len(),
    ensures
        end == word_end(chars@, pos as int),
        pos <= end <= chars@.len(),
{
    let mut i: usize = pos;
    while i < chars.len() && is_word_char(chars[i])
        invariant
            pos <= i <= chars@.len(),
            word_end(chars@, pos as int) == word_end(chars@, i as int),
        decreases chars@.len() - i,
    {
        i += 1;
    }
    i
}

fn scan_identifier(chars: &[char], pos: usize) -> (end: usize)
    requires
        pos <= chars@.len(),
    ensures
        end == identifier_end(chars@, pos as int, false),
        pos <= end <= chars@.len(),
{
    let mut i: usize = pos;
    let mut after_dot: bool = false;
    while i < chars.len()
        invariant
            pos <= i <= chars@.len(),
            identifier_end(chars@, pos as int, false) == identifier_end(
                chars@,
                i as int,
                after_dot,
            ),
        decreases chars@.len() - i,
    {
        let c: char = chars[i];
        if after_dot {
            if is_word_start(c) {
                after_dot = false;
            } else {
                return i;
            }
        } else if is_word_char(c) {
        } else if c == '.' {
            after_dot = true;
        } else {
            return i;
        }
        i += 1;
    }
    i
}

fn scan_string(chars: &[char], pos: usize) -> (end: Option<usize>)
    requires
        1 <= pos <= chars@.len(),
    ensures
        match end {
            Some(e) => string_end(chars@, pos as int, None) == Some(e as int) && pos < e
                <= chars@.len(),
            None => string_end(chars@, pos as int, None) is None,
        },
{
    let mut i: usize = pos;
    let mut best: Option<usize> = None;
    while i < chars.len()
        invariant
            1 <= pos <= i <= chars@.len(),
            match best {
                Some(b) => pos < b <= i && string_end(chars@, pos as int, None) == string_end(
                    chars@,
                    i as int,
                    Some(b as int),
                ),
                None => string_end(chars@, pos as int, None) == string_end(
                    chars@,
                    i as int,
                    None,
                ),
            },
        decreases chars@.len() - i,
    {
        if chars[i] == '"' {
            if chars[i - 1] == '\\' {
                best = Some(i + 1);
            } else {
                return Some(i + 1);
            }
        }
        i += 1;
    }
    best
}

/// The value of a digit in radix 16 or less; 36 for a character that is
/// no such digit.
pub open spec fn spec_digit_value(c: char) -> int {
    if '0' <= c <= '9' {
        c as int - '0' as int
    } else if 'a' <= c <= 'f' {
        c as int - 'a' as int + 10
    } else if 'A' <= c <= 'F' {
        c as int - 'A' as int + 10
    } else {
        36
    }
}

/// The digits of a numeral: a digit of the radix first, then digits and
/// underscores.
pub open spec fn digits_valid(digits: Seq<char>, radix: int) -> bool {
    &&& digits.len() >= 1
    &&& spec_digit_value(digits[0]) < radix
    &&& forall|i: int|
        0 <= i < digits.len() ==> digits[i] == '_' || spec_digit_value(#[trigger] digits[i])
            < radix
}

/// The number that the digits spell in the radix, underscores passed over.
pub open spec fn digits_value(digits: Seq<char>, radix: int) -> int
    decreases digits.len(),
{
    if digits.len() == 0 {
        0
    } else if digits.last() == '_' {
        digits_value(digits.drop_last(), radix)
    } else {
        digits_value(digits.drop_last(), radix) * radix + spec_digit_value(digits.last())
    }
}

/// The sixteen-bit value of a numeral's digits, or why they have none.
pub open spec fn spec_parse_digits(digits: Seq<char>, radix: int) -> Result<u16, LexErrorKind> {
    if !digits_valid(digits, radix) {
        Err(LexErrorKind::MalformedNumber)
    } else if digits_value(digits, radix) > 0xFFFF {
        Err(LexErrorKind::NumberTooLarge)
    } else {
        Ok(digits_value(digits, radix) as u16)
    }
}

/// The value of a numeral: hexadecimal after `0x`, binary after `0b`
/// (the letter in either case), decimal otherwise.
pub open spec fn spec_number(text: Seq<char>) -> Result<u16, LexErrorKind> {
    if text.len() >= 2 && text[0] == '0' && (text[1] == 'x' || text[1] == 'X') {
        spec_parse_digits(text.skip(2), 16)
    } else if text.len() >= 2 && text[0] == '0' && (text[1] == 'b' || text[1] == 'B') {
        spec_parse_digits(text.skip(2), 2)
    } else {
        spec_parse_digits(text, 10)
    }
}

fn digit_value(c: char) -> (value: u32)
    ensures
        value == spec_digit_value(c),
        value <= 36,
{
    if '0' <= c && c <= '9' {
        (c as u32) - ('0' as u32)
    } else if 'a' <= c && c <= 'f' {
        (c as u32) - ('a' as u32) + 10
    } else if 'A' <= c && c <= 'F' {
        (c as u32) - ('A' as u32) + 10
    } else {
        36
    }
}

/// The digits' value is never negative.
proof fn lemma_digits_value_nonnegative(digits: Seq<char>, radix: int)
    requires
        radix >= 1,
    ensures
        digits_value(digits, radix) >= 0,
    decreases digits.len(),
{
    if digits.len() > 0 {
        lemma_digits_value_nonnegative(digits.drop_last(), radix);
        assert(digits_value(digits.drop_last(), radix) * radix >= 0) by (nonlinear_arith)
            requires
                digits_value(digits.drop_last(), radix) >= 0,
                radix >= 1,
        ;
    }
}

/// Reads the digits `chars[from..]` in the given radix.
fn parse_digits(chars: &[char], from: usize, radix: u32) -> (result: Result<u16, LexErrorKind>)
    requires
        from <= chars@.len(),
        2 <= radix <= 16,
    ensures
        result == spec_parse_digits(chars@.skip(from as int), radix as int),
{
    let ghost digits = chars@.skip(from as int);
    let mut value: u32 = 0;
    let mut overflow: bool = false;
    let mut i: usize = from;
    while i < chars.len()
        invariant
            from <= i <= chars@.len(),
            2 <= radix <= 16,
            digits == chars@.skip(from as int),
            i > from ==> spec_digit_value(digits[0]) < radix,
            forall|j: int|
                0 <= j < i - from ==> digits[j] == '_' || spec_digit_value(#[trigger] digits[j])
                    < radix,
            !overflow ==> value == digits_value(digits.take(i - from), radix as int) && value
                <= 0xFFFF,
            overflow ==> digits_value(digits.take(i - from), radix as int) > 0xFFFF,
        decreases chars@.len() - i,
    {
        let c: char = chars[i];
        let ghost k = i - from;
        proof {
            assert(digits[k] == c);
            assert(digits.take(k + 1).drop_last() == digits.take(k));
            assert(digits.take(k + 1).last() == c);
            lemma_digits_value_nonnegative(digits.take(k), radix as int);
        }
        if c == '_' {
            if i == from {
                return Err(LexErrorKind::MalformedNumber);
            }
        } else {
            let d: u32 = digit_value(c);
            if d >= radix {
                return Err(LexErrorKind::MalformedNumber);
            }
            let ghost before = digits_value(digits.take(k), radix as int);
            assert(before * radix + d >= before) by (nonlinear_arith)
                requires
                    before >= 0,
                    radix >= 2,
                    d >= 0,
            ;
            if !overflow {
                assert(value * radix + d <= 0xFFFF * 16 + 36) by (nonlinear_arith)
                    requires
                        0 <= value <= 0xFFFF,
                        2 <= radix <= 16,
                        d <= 36,
                ;
                value = value * radix + d;
                if value > 0xFFFF {
                    overflow = true;
                }
            }
        }
        i += 1;
    }
    proof {
        assert(digits.take(i - from) == digits);
    }
    if i == from {
        Err(LexErrorKind::MalformedNumber)
    } else if overflow {
        Err(LexErrorKind::NumberTooLarge)
    } else {
        Ok(value as u16)
    }
}

/// The value of a decimal numeral: decimal digits and underscores, a
/// digit first.
pub fn get_decimal_number(slice: &[char]) -> (result: Result<u16, LexErrorKind>)
    ensures
        result == spec_parse_digits(slice@, 10),
{
    proof {
        assert(slice@.skip(0) == slice@);
    }
    parse_digits(slice, 0, 10)
}

/// The value of a hexadecimal numeral, whose first two characters are
/// its prefix.
pub fn get_hexadecimal_number(slice: &[char]) -> (result: Result<u16, LexErrorKind>)
    requires
        slice@.len() >= 2,
    ensures
        result == spec_parse_digits(slice@.skip(2), 16),
{
    parse_digits(slice, 2, 16)
}

/// The value of a binary numeral, whose first two characters are its
/// prefix.
pub fn get_binary_number(slice: &[char]) -> (result: Result<u16, LexErrorKind>)
    requires
        slice@.len() >= 2,
    ensures
        result == spec_parse_digits(slice@.skip(2), 2),
{
    parse_digits(slice, 2, 2)
}

/// The value of a numeral in any of the three notations.
pub fn get_number(slice: &[char]) -> (result: Result<u16, LexErrorKind>)
    ensures
        result == spec_number(slice@),
{
    if slice.len() >= 2 && slice[0] == '0' && (slice[1] == 'x' || slice[1] == 'X') {
        get_hexadecimal_number(slice)
    } else if slice.len() >= 2 && slice[0] == '0' && (slice[1] == 'b' || slice[1] == 'B') {
        get_binary_number(slice)
    } else {
        get_decimal_number(slice)
    }
}

/// The mnemonic that a word spells, letter case set aside.
pub open spec fn spec_get_keyword(text: Seq<char>) -> Option<Keyword> {
    let upper = spec_upper_text(text);
    if upper == "CONST"@ {
        Some(Keyword::CONST)
    } else if upper == "MARK"@ {
        Some(Keyword::MARK)
    } else if upper == "DATA"@ {
        Some(Keyword::DATA)
    } else if upper == "DSTR"@ {
        Some(Keyword::DSTR)
    } else if upper == "NEG"@ {
        Some(Keyword::NEG)
    } else if upper == "ADD"@ {
        Some(Keyword::ADD)
    } else if upper == "SUB"@ {
        Some(Keyword::SUB)
    } else if upper == "MUL"@ {
        Some(Keyword::MUL)
    } else if upper == "DIV"@ {
        Some(Keyword::DIV)
    } else if upper == "MOD"@ {
        Some(Keyword::MOD)
    } else if upper == "SMUL"@ {
        Some(Keyword::SMUL)
    } else if upper == "SDIV"@ {
        Some(Keyword::SDIV)
    } else if upper == "SMOD"@ {
        Some(Keyword::SMOD)
    } else if upper == "NOT"@ {
        Some(Keyword::NOT)
    } else if upper == "AND"@ {
        Some(Keyword::AND)
    } else if upper == "OR"@ {
        Some(Keyword::OR)
    } else if upper == "XOR"@ {
        Some(Keyword::XOR)
    } else if upper == "SHL"@ {
        Some(Keyword::SHL)
    } else if upper == "SHR"@ {
        Some(Keyword::SHR)
    } else if upper == "SAR"@ {
        Some(Keyword::SAR)
    } else if upper == "CMP"@ {
        Some(Keyword::CMP)
    } else if upper == "JG"@ {
        Some(Keyword::JG)
    } else if upper == "JNG"@ {
        Some(Keyword::JNG)
    } else if upper == "JL"@ {
        Some(Keyword::JL)
    } else if upper == "JNL"@ {
        Some(Keyword::JNL)
    } else if upper == "JE"@ {
        Some(Keyword::JE)
    } else if upper == "JNE"@ {
        Some(Keyword::JNE)
    } else if upper == "JMP"@ {
        Some(Keyword::JMP)
    } else if upper == "SET"@ {
        Some(Keyword::SET)
    } else if upper == "GET"@ {
        Some(Keyword::GET)
    } else if upper == "SWAP"@ {
        Some(Keyword::SWAP)
    } else if upper == "PUSH"@ {
        Some(Keyword::PUSH)
    } else if upper == "POP"@ {
        Some(Keyword::POP)
    } else if upper == "CALL"@ {
        Some(Keyword::CALL)
    } else if upper == "RET"@ {
        Some(Keyword::RET)
    } else if upper == "VPUSH"@ {
        Some(Keyword::VPUSH)
    } else if upper == "VPOP"@ {
        Some(Keyword::VPOP)
    } else if upper == "NOP"@ {
        Some(Keyword::NOP)
    } else if upper == "HALT"@ {
        Some(Keyword::HALT)
    } else if upper == "EXTI"@ {
        Some(Keyword::EXTI)
    } else {
        None
    }
}

/// The register that a word names, letter case set aside.
pub open spec fn spec_get_register(text: Seq<char>) -> Option<Register> {
    let upper = spec_upper_text(text);
    if upper == "A"@ {
        Some(Register::A)
    } else if upper == "B"@ {
        Some(Register::B)
    } else if upper == "C"@ {
        Some(Register::C)
    } else if upper == "T"@ {
        Some(Register::T)
    } else if upper == "SP"@ {
        Some(Register::SP)
    } else if upper == "VP"@ {
        Some(Register::VP)
    } else if upper == "PP"@ {
        Some(Register::PP)
    } else if upper == "FL"@ {
        Some(Register::FL)
    } else {
        None
    }
}

/// The token of a word: a mnemonic or a register where it spells one, an
/// identifier otherwise.
pub open spec fn spec_classify_word(text: Seq<char>) -> Token {
    match spec_get_keyword(text) {
        Some(keyword) => Token::Keyword(keyword),
        None => match spec_get_register(text) {
            Some(register) => Token::Register(register),
            None => Token::Identifier,
        },
    }
}

/// Whether the text, in upper case, is `word`.
fn matches_word(text: &[char], word: &str) -> (b: bool)
    ensures
        b == (spec_upper_text(text@) == word@),
{
    let n: usize = word.unicode_len();
    if text.len() != n {
        return false;
    }
    let mut i: usize = 0;
    while i < n
        invariant
            i <= n,
            n == text@.len(),
            n == word@.len(),
            forall|j: int| 0 <= j < i ==> spec_upper(#[trigger] text@[j]) == word@[j],
        decreases n - i,
    {
        if upper(text[i]) != word.get_char(i) {
            assert(spec_upper_text(text@)[i as int] != word@[i as int]);
            return false;
        }
        i += 1;
    }
    assert(spec_upper_text(text@) =~= word@);
    true
}

/// The mnemonic that the slice spells, letter case set aside.
pub fn get_keyword(slice: &[char]) -> (keyword: Option<Keyword>)
    ensures
        keyword == spec_get_keyword(slice@),
{
    if matches_word(slice, "CONST") {
        Some(Keyword::CONST)
    } else if matches_word(slice, "MARK") {
        Some(Keyword::MARK)
    } else if matches_word(slice, "DATA") {
        Some(Keyword::DATA)
    } else if matches_word(slice, "DSTR") {
        Some(Keyword::DSTR)
    } else if matches_word(slice, "NEG") {
        Some(Keyword::NEG)
    } else if matches_word(slice, "ADD") {
        Some(Keyword::ADD)
    } else if matches_word(slice, "SUB") {
        Some(Keyword::SUB)
    } else if matches_word(slice, "MUL") {
        Some(Keyword::MUL)
    } else if matches_word(slice, "DIV") {
        Some(Keyword::DIV)
    } else if matches_word(slice, "MOD") {
        Some(Keyword::MOD)
    } else if matches_word(slice, "SMUL") {
        Some(Keyword::SMUL)
    } else if matches_word(slice, "SDIV") {
        Some(Keyword::SDIV)
    } else if matches_word(slice, "SMOD") {
        Some(Keyword::SMOD)
    } else if matches_word(slice, "NOT") {
        Some(Keyword::NOT)
    } else if matches_word(slice, "AND") {
        Some(Keyword::AND)
    } else if matches_word(slice, "OR") {
        Some(Keyword::OR)
    } else if matches_word(slice, "XOR") {
        Some(Keyword::XOR)
    } else if matches_word(slice, "SHL") {
        Some(Keyword::SHL)
    } else if matches_word(slice, "SHR") {
        Some(Keyword::SHR)
    } else if matches_word(slice, "SAR") {
        Some(Keyword::SAR)
    } else if matches_word(slice, "CMP") {
        Some(Keyword::CMP)
    } else if matches_word(slice, "JG") {
        Some(Keyword::JG)
    } else if matches_word(slice, "JNG") {
        Some(Keyword::JNG)
    } else if matches_word(slice, "JL") {
        Some(Keyword::JL)
    } else if matches_word(slice, "JNL") {
        Some(Keyword::JNL)
    } else if matches_word(slice, "JE") {
        Some(Keyword::JE)
    } else if matches_word(slice, "JNE") {
        Some(Keyword::JNE)
    } else if matches_word(slice, "JMP") {
        Some(Keyword::JMP)
    } else if matches_word(slice, "SET") {
        Some(Keyword::SET)
    } else if matches_word(slice, "GET") {
        Some(Keyword::GET)
    } else if matches_word(slice, "SWAP") {
        Some(Keyword::SWAP)
    } else if matches_word(slice, "PUSH") {
        Some(Keyword::PUSH)
    } else if matches_word(slice, "POP") {
        Some(Keyword::POP)
    } else if matches_word(slice, "CALL") {
        Some(Keyword::CALL)
    } else if matches_word(slice, "RET") {
        Some(Keyword::RET)
    } else if matches_word(slice, "VPUSH") {
        Some(Keyword::VPUSH)
    } else if matches_word(slice, "VPOP") {
        Some(Keyword::VPOP)
    } else if matches_word(slice, "NOP") {
        Some(Keyword::NOP)
    } else if matches_word(slice, "HALT") {
        Some(Keyword::HALT)
    } else if matches_word(slice, "EXTI") {
        Some(Keyword::EXTI)
    } else {
        None
    }
}

/// The register that the slice names, letter case set aside.
pub fn get_register(slice: &[char]) -> (register: Option<Register>)
    ensures
        register == spec_get_register(slice@),
{
    if matches_word(slice, "A") {
        Some(Register::A)
    } else if matches_word(slice, "B") {
        Some(Register::B)
    } else if matches_word(slice, "C") {
        Some(Register::C)
    } else if matches_word(slice, "T") {
        Some(Register::T)
    } else if matches_word(slice, "SP") {
        Some(Register::SP)
    } else if matches_word(slice, "VP") {
        Some(Register::VP)
    } else if matches_word(slice, "PP") {
        Some(Register::PP)
    } else if matches_word(slice, "FL") {
        Some(Register::FL)
    } else {
        None
    }
}

/// `String::push` appends the character to the end of the string, as its
/// documentation says; nothing is proved of it here.
pub assume_specification[ std::string::String::push ](s: &mut std::string::String, c: char)
    ensures
        final(s)@ == old(s)@.push(c),
;

/// The first lexeme at or after `pos`: its token and the range of its
/// text; `None` where only blanks and comments are left.
///
/// After the blanks, separators and comments, the first character decides:
/// a bracket or a sign is a token by itself; a quote starts the longest
/// string literal; a digit starts a numeral, which takes every word
/// character that follows; a letter or underscore starts the longest
/// identifier, which is a mnemonic or a register where it spells one.
/// Any other character is an error, and so are a quote that nothing
/// closes and a numeral without a sixteen-bit value.
pub open spec fn spec_scan(s: Seq<char>, pos: int) -> Result<Option<(Token, int, int)>, LexError> {
    let start = skip_end(s, pos, false);
    if start < 0 || start >= s.len() {
        Ok(None)
    } else if s[start] == '[' {
        Ok(Some((Token::OpenBracket, start, start + 1)))
    } else if s[start] == ']' {
        Ok(Some((Token::CloseBracket, start, start + 1)))
    } else if s[start] == '+' || s[start] == '-' {
        Ok(Some((Token::Operator, start, start + 1)))
    } else if s[start] == '"' {
        match string_end(s, start + 1, None) {
            Some(end) => Ok(Some((Token::String, start, end))),
            None => Err(
                LexError { kind: LexErrorKind::UnrecognizedCharacter, position: start as usize },
            ),
        }
    } else if spec_is_digit(s[start]) {
        let end = word_end(s, start);
        match spec_number(s.subrange(start, end)) {
            Ok(value) => Ok(Some((Token::Number(value), start, end))),
            Err(kind) => Err(LexError { kind, position: start as usize }),
        }
    } else if spec_is_word_start(s[start]) {
        let end = identifier_end(s, start + 1, false);
        Ok(Some((spec_classify_word(s.subrange(start, end)), start, end)))
    } else {
        Err(LexError { kind: LexErrorKind::UnrecognizedCharacter, position: start as usize })
    }
}

/// The lexemes of the text from `pos` on, or the first lexical error.
pub open spec fn spec_tokenize_from(s: Seq<char>, pos: int) -> Result<Seq<LexemeView>, LexError>
    decreases s.len() - pos,
{
    match spec_scan(s, pos) {
        Err(error) => Err(error),
        Ok(None) => Ok(seq![]),
        Ok(Some((token, start, end))) => if pos < end <= s.len() {
            match spec_tokenize_from(s, end) {
                Err(error) => Err(error),
                Ok(rest) => Ok(
                    seq![LexemeView { token, text: s.subrange(start, end) }] + rest,
                ),
            }
        } else {
            Ok(seq![])
        },
    }
}

/// The lexemes of a source text, or its first lexical error.
pub open spec fn spec_tokenize(source: Seq<char>) -> Result<Seq<LexemeView>, LexError> {
    spec_tokenize_from(source, 0)
}

/// The blanks and comments end at or after `pos`, within the text.
pub proof fn lemma_skip_end_bounds(s: Seq<char>, pos: int, in_comment: bool)
    requires
        0 <= pos <= s.len(),
    ensures
        pos <= skip_end(s, pos, in_comment) <= s.len(),
    decreases s.len() - pos,
{
    if pos < s.len() {
        if in_comment {
            lemma_skip_end_bounds(s, pos + 1, s[pos] != '\n');
        } else if spec_is_space(s[pos]) || s[pos] == ',' {
            lemma_skip_end_bounds(s, pos + 1, false);
        } else if s[pos] == ';' {
            lemma_skip_end_bounds(s, pos + 1, true);
        }
    }
}

/// A run of word characters ends at or after `pos`, within the text.
pub proof fn lemma_word_end_bounds(s: Seq<char>, pos: int)
    requires
        0 <= pos <= s.len(),
    ensures
        pos <= word_end(s, pos) <= s.len(),
    decreases s.len() - pos,
{
    if pos < s.len() && spec_is_word_char(s[pos]) {
        lemma_word_end_bounds(s, pos + 1);
    }
}

/// An identifier ends at or after `pos`, within the text.
pub proof fn lemma_identifier_end_bounds(s: Seq<char>, pos: int, after_dot: bool)
    requires
        0 <= pos <= s.len(),
    ensures
        pos <= identifier_end(s, pos, after_dot) <= s.len(),
    decreases s.len() - pos,
{
    if pos < s.len() {
        if after_dot {
            if spec_is_word_start(s[pos]) {
                lemma_identifier_end_bounds(s, pos + 1, false);
            }
        } else if spec_is_word_char(s[pos]) {
            lemma_identifier_end_bounds(s, pos + 1, false);
        } else if s[pos] == '.' {
            lemma_identifier_end_bounds(s, pos + 1, true);
        }
    }
}

/// A string literal ends after `pos`, within the text, unless it is the
/// one found before.
pub proof fn lemma_string_end_bounds(s: Seq<char>, pos: int, best: Option<int>)
    requires
        1 <= pos <= s.len(),
    ensures
        string_end(s, pos, best) matches Some(end) ==> best == Some(end) || pos < end <= s.len(),
    decreases s.len() - pos,
{
    if pos < s.len() {
        if s[pos] == '"' {
            if s[pos - 1] == '\\' {
                lemma_string_end_bounds(s, pos + 1, Some(pos + 1));
            }
        } else {
            lemma_string_end_bounds(s, pos + 1, best);
        }
    }
}

/// A quote that follows no backslash.
pub open spec fn spec_free_quote(s: Seq<char>, at: int) -> bool {
    s[at] == '"' && s[at - 1] != '\\'
}

/// What the scan for a string literal finds, given what lies behind it.
/// The literal opens at `start`; every quote between `start` and `pos`
/// follows a backslash, and `best` ends at the last of them.
pub proof fn lemma_string_end_is_longest(s: Seq<char>, start: int, pos: int, best: Option<int>)
    requires
        0 <= start < pos <= s.len(),
        forall|q: int| start < q < pos ==> !#[trigger] spec_free_quote(s, q),
        match best {
            Some(b) => start + 2 <= b <= pos && s[b - 1] == '"' && forall|q: int|
                b <= q < pos ==> s[q] != '"',
            None => forall|q: int| start < q < pos ==> s[q] != '"',
        },
    ensures
        match string_end(s, pos, best) {
            Some(end) => {
                &&& start + 2 <= end <= s.len()
                &&& s[end - 1] == '"'
                &&& forall|q: int| start < q < end - 1 ==> !#[trigger] spec_free_quote(s, q)
                &&& s[end - 2] == '\\' ==> forall|q: int| end <= q < s.len() ==> s[q] != '"'
            },
            None => forall|q: int| start < q < s.len() ==> s[q] != '"',
        },
    decreases s.len() - pos,
{
    if pos < s.len() {
        if s[pos] == '"' {
            if s[pos - 1] == '\\' {
                lemma_string_end_is_longest(s, start, pos + 1, Some(pos + 1));
            }
        } else {
            lemma_string_end_is_longest(s, start, pos + 1, best);
        }
    }
}

fn scan(chars: &[char], pos: usize) -> (result: Result<Option<(Token, usize, usize)>, LexError>)
    requires
        pos <= chars@.len(),
    ensures
        match result {
            Ok(Some((token, start, end))) => spec_scan(chars@, pos as int) == Ok::<
                Option<(Token, int, int)>,
                LexError,
            >(Some((token, start as int, end as int))) && pos <= start < end <= chars@.len()
                && (LexemeView {
                token,
                text: chars@.subrange(start as int, end as int),
            }).well_formed(),
            Ok(None) => spec_scan(chars@, pos as int) == Ok::<Option<(Token, int, int)>, LexError>(
                None,
            ),
            Err(error) => spec_scan(chars@, pos as int) == Err::<
                Option<(Token, int, int)>,
                LexError,
            >(error),
        },
{
    let start: usize = skip(chars, pos);
    if start >= chars.len() {
        return Ok(None);
    }
    let c: char = chars[start];
    if c == '[' {
        Ok(Some((Token::OpenBracket, start, start + 1)))
    } else if c == ']' {
        Ok(Some((Token::CloseBracket, start, start + 1)))
    } else if c == '+' || c == '-' {
        assert(chars@.subrange(start as int, start + 1) =~= seq![c]);
        Ok(Some((Token::Operator, start, start + 1)))
    } else if c == '"' {
        match scan_string(chars, start + 1) {
            Some(end) => Ok(Some((Token::String, start, end))),
            None => Err(LexError { kind: LexErrorKind::UnrecognizedCharacter, position: start }),
        }
    } else if is_digit(c) {
        let end: usize = scan_word(chars, start);
        match get_number(slice_subrange(chars, start, end)) {
            Ok(value) => Ok(Some((Token::Number(value), start, end))),
            Err(kind) => Err(LexError { kind, position: start }),
        }
    } else if is_word_start(c) {
        let end: usize = scan_identifier(chars, start + 1);
        let word = slice_subrange(chars, start, end);
        let token = match get_keyword(word) {
            Some(keyword) => Token::Keyword(keyword),
            None => match get_register(word) {
                Some(register) => Token::Register(register),
                None => Token::Identifier,
            },
        };
        Ok(Some((token, start, end)))
    } else {
        Err(LexError { kind: LexErrorKind::UnrecognizedCharacter, position: start })
    }
}

/// The characters of a string slice, in order.
pub fn to_chars(source: &str) -> (chars: Vec<char>)
    ensures
        chars@ == source@,
{
    let mut chars: Vec<char> = Vec::new();
    for c in it: source.chars()
        invariant
            chars@ == it.seq().take(it.index() as int),
            it.seq() == source@,
    {
        chars.push(c);
    }
    chars
}

/// The characters of a slice as a string.
pub fn to_text(slice: &[char]) -> (text: String)
    ensures
        text@ == slice@,
{
    let mut text = String::new();
    let mut i: usize = 0;
    while i < slice.len()
        invariant
            i <= slice@.len(),
            text@ == slice@.take(i as int),
        decreases slice@.len() - i,
    {
        text.push(slice[i]);
        i += 1;
    }
    text
}

/// Splits a source text into its lexemes. Blanks, commas and comments
/// are dropped. The first lexical error ends the run, and no lexeme is
/// handed out.
pub fn tokenize(source: &str) -> (result: Result<Vec<Lexeme>, AssembleError>)
    ensures
        match result {
            Ok(lexemes) => spec_tokenize(source@) matches Ok(expected) && lexemes_view(lexemes@)
                == expected && lexemes_well_formed(lexemes_view(lexemes@)),
            Err(error) => spec_tokenize(source@) matches Err(expected) && error@
                == AssembleErrorView::Lex(expected),
        },
{
    let chars: Vec<char> = to_chars(source);
    let slice = chars.as_slice();
    let mut lexemes: Vec<Lexeme> = Vec::new();
    let mut pos: usize = 0;
    loop
        invariant
            slice@ == source@,
            pos <= slice@.len(),
            lexemes_well_formed(lexemes_view(lexemes@)),
            spec_tokenize(source@) == (match spec_tokenize_from(source@, pos as int) {
                Err(error) => Err(error),
                Ok(rest) => Ok(lexemes_view(lexemes@) + rest),
            }),
        decreases slice@.len() - pos,
    {
        match scan(slice, pos) {
            Err(error) => {
                return Err(AssembleError::Lex(error));
            },
            Ok(None) => {
                assert(lexemes_view(lexemes@) + Seq::<LexemeView>::empty() == lexemes_view(
                    lexemes@,
                ));
                return Ok(lexemes);
            },
            Ok(Some((token, start, end))) => {
                let ghost before = lexemes_view(lexemes@);
                let lexeme = Lexeme { token, text: to_text(slice_subrange(slice, start, end)) };
                lexemes.push(lexeme);
                proof {
                    let text = source@.subrange(start as int, end as int);
                    let view = LexemeView { token, text };
                    assert(lexemes_view(lexemes@) == before.push(view));
                    match spec_tokenize_from(source@, end as int) {
                        Ok(rest) => {
                            assert(before + (seq![view] + rest) == before.push(view) + rest);
                        },
                        Err(_) => {},
                    }
                }
                pos = end;
            },
        }
    }
}

/// A colour in which a token is shown.
#[derive(Clone, Copy, Debug, PartialEq, Eq, Structural)]
pub enum Color {
    Red,
    Green,
    Blue,
    Cyan,
    Yellow,
    White,
    /// A colour of the 256-colour palette.
    Ansi256(u8),
}

/// The colour of each class of token.
pub open spec fn spec_token_color(token: Token) -> Color {
    match token {
        Token::Error => Color::Red,
        Token::Whitespace => Color::Ansi256(8),
        Token::Comment => Color::Green,
        Token::Keyword(_) => Color::Blue,
        Token::Register(_) => Color::Cyan,
        Token::Separator => Color::Yellow,
        Token::OpenBracket => Color::Ansi256(166),
        Token::CloseBracket => Color::Ansi256(166),
        Token::String => Color::Yellow,
        Token::Number(_) => Color::Ansi256(105),
        Token::Operator => Color::Ansi256(127),
        Token::Identifier => Color::White,
    }
}

/// The colour in which a token is shown.
pub fn token_color(token: &Token) -> (color: Color)
    ensures
        color == spec_token_color(*token),
{
    match token {
        Token::Error => Color::Red,
        Token::Whitespace => Color::Ansi256(8),
        Token::Comment => Color::Green,
        Token::Keyword(_) => Color::Blue,
        Token::Register(_) => Color::Cyan,
        Token::Separator => Color::Yellow,
        Token::OpenBracket => Color::Ansi256(166),
        Token::CloseBracket => Color::Ansi256(166),
        Token::String => Color::Yellow,
        Token::Number(_) => Color::Ansi256(105),
        Token::Operator => Color::Ansi256(127),
        Token::Identifier => Color::White,
    }
}

/// The text by which a lexeme is shown: its own text, on a new line
/// where it is a mnemonic.
pub fn token_display(lexeme: &Lexeme) -> (shown: String)
    requires
    ensures
        shown@ == (if lexeme@.token is Keyword {
            seq!['\n'] + lexeme@.text
        } else {
            lexeme@.text
        }),
{
    let mut shown = String::new();
    match lexeme.token() {
        Token::Keyword(_) => {
            shown.push('\n');
        },
        _ => {},
    }
    shown.append(lexeme.text());
    shown
}

} // verus!
