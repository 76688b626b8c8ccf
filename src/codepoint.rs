use vstd::prelude::*;

verus! {

/// A C0 control: U+0000 NULL to U+001F INFORMATION SEPARATOR ONE.
pub open spec fn is_c0_control_code(c: u32) -> bool {
    c <= 0x1F
}

pub open spec fn is_digit_code(c: u32) -> bool {
    0x30 <= c <= 0x39
}

pub open spec fn is_lowercase_code(c: u32) -> bool {
    0x61 <= c <= 0x7A
}

pub open spec fn is_uppercase_code(c: u32) -> bool {
    0x41 <= c <= 0x5A
}

pub open spec fn is_letter_code(c: u32) -> bool {
    is_lowercase_code(c) || is_uppercase_code(c)
}

pub open spec fn is_ascii_code(c: u32) -> bool {
    c <= 0x7F
}

pub open spec fn is_non_ascii_code(c: u32) -> bool {
    c >= 0x80
}

/// A letter, a non-ASCII code point or U+005F LOW LINE (_).
pub open spec fn is_ident_start_code(c: u32) -> bool {
    is_letter_code(c) || is_non_ascii_code(c) || c == 0x5F
}

/// An ASCII alphanumeric, a non-ASCII code point or U+005F LOW LINE (_).
pub open spec fn is_ident_after_start_code(c: u32) -> bool {
    is_letter_code(c) || is_digit_code(c) || is_non_ascii_code(c) || c == 0x5F
}

/// An ident-start code point, a digit or U+002D HYPHEN-MINUS (-).
pub open spec fn is_ident_code(c: u32) -> bool {
    is_ident_start_code(c) || is_digit_code(c) || c == 0x2D
}

/// LINE FEED, FORM FEED or CARRIAGE RETURN.
pub open spec fn is_newline_code(c: u32) -> bool {
    c == 0x0A || c == 0x0C || c == 0x0D
}

/// A newline, CHARACTER TABULATION or SPACE.
pub open spec fn is_whitespace_code(c: u32) -> bool {
    is_newline_code(c) || c == 0x09 || c == 0x20
}

/// U+D800 to U+DFFF inclusive.
pub open spec fn is_surrogate_code(c: u32) -> bool {
    0xD800 <= c <= 0xDFFF
}

/// U+FDD0 to U+FDEF, or the last two code points of each of the
/// seventeen planes (U+xFFFE and U+xFFFF).
pub open spec fn is_noncharacter_code(c: u32) -> bool {
    (0xFDD0 <= c <= 0xFDEF) || (c <= 0x10FFFF && c % 0x10000 >= 0xFFFE)
}

/// A scannable unit (a character or a byte) and the category questions
/// that the tokenizer asks of it. Every answer depends on the unit's
/// numeric value alone.
pub trait CodePointInterface: Copy {
    /// The numeric value of the unit.
    spec fn code(&self) -> u32;

    fn code_value(&self) -> (r: u32)
        ensures
            r == self.code(),
    ;

    fn as_char(&self) -> (r: char)
        ensures
            r as u32 == self.code(),
    ;

    fn as_byte(&self) -> (r: u8)
        ensures
            r == (self.code() % 256) as u8,
    {
        let c = self.code_value();
        (c % 256) as u8
    }

    fn is(&self, unit: char) -> (r: bool)
        ensures
            r == (self.code() == unit as u32),
    {
        self.code_value() == unit as u32
    }

    fn is_c0_control(&self) -> (r: bool)
        ensures
            r == is_c0_control_code(self.code()),
    {
        self.code_value() <= 0x1F
    }

    fn is_c0_control_or_space(&self) -> (r: bool)
        ensures
            r == (is_c0_control_code(self.code()) || self.code() == 0x20),
    {
        self.is_c0_control() || self.is(' ')
    }

    fn is_digit(&self) -> (r: bool)
        ensures
            r == is_digit_code(self.code()),
    {
        let c = self.code_value();
        0x30 <= c && c <= 0x39
    }

    fn is_letter(&self) -> (r: bool)
        ensures
            r == is_letter_code(self.code()),
    {
        self.is_lowercase_letter() || self.is_uppercase_letter()
    }

    fn is_lowercase_letter(&self) -> (r: bool)
        ensures
            r == is_lowercase_code(self.code()),
    {
        let c = self.code_value();
        0x61 <= c && c <= 0x7A
    }

    fn is_uppercase_letter(&self) -> (r: bool)
        ensures
            r == is_uppercase_code(self.code()),
    {
        let c = self.code_value();
        0x41 <= c && c <= 0x5A
    }

    fn is_ascii_code_point(&self) -> (r: bool)
        ensures
            r == is_ascii_code(self.code()),
    {
        self.code_value() <= 0x7F
    }

    fn is_ident_start(&self) -> (r: bool)
        ensures
            r == is_ident_start_code(self.code()),
    {
        self.is_letter() || self.is_non_ascii() || self.is('_')
    }

    fn is_ident_after_start(&self) -> (r: bool)
        ensures
            r == is_ident_after_start_code(self.code()),
    {
        self.is_letter() || self.is_digit() || self.is_non_ascii() || self.is('_')
    }

    fn is_ident(&self) -> (r: bool)
        ensures
            r == is_ident_code(self.code()),
    {
        self.is_ident_start() || self.is_digit() || self.is('-')
    }

    fn is_newline(&self) -> (r: bool)
        ensures
            r == is_newline_code(self.code()),
    {
        self.is('\n') || self.is('\x0C') || self.is('\r')
    }

    fn is_non_ascii(&self) -> (r: bool)
        ensures
            r == is_non_ascii_code(self.code()),
    {
        self.code_value() >= 0x80
    }

    fn is_noncharacter(&self) -> (r: bool)
        ensures
            r == is_noncharacter_code(self.code()),
    {
        let c = self.code_value();
        (0xFDD0 <= c && c <= 0xFDEF) || (c <= 0x10FFFF && c % 0x10000 >= 0xFFFE)
    }

    fn is_null(&self) -> (r: bool)
        ensures
            r == (self.code() == 0),
    {
        self.is('\0')
    }

    /// A scalar value is a code point that is not a surrogate.
    fn is_scalar_value(&self) -> (r: bool)
        ensures
            r == !is_surrogate_code(self.code()),
    {
        !self.is_surrogate()
    }

    fn is_surrogate(&self) -> (r: bool)
        ensures
            r == is_surrogate_code(self.code()),
    {
        let c = self.code_value();
        0xD800 <= c && c <= 0xDFFF
    }

    fn is_whitespace(&self) -> (r: bool)
        ensures
            r == is_whitespace_code(self.code()),
    {
        self.is_newline() || self.is('\t') || self.is(' ')
    }
}

impl CodePointInterface for char {
    open spec fn code(&self) -> u32 {
        *self as u32
    }

    fn code_value(&self) -> (r: u32) {
        *self as u32
    }

    fn as_char(&self) -> (r: char) {
        *self
    }
}

impl CodePointInterface for u8 {
    open spec fn code(&self) -> u32 {
        *self as u32
    }

    fn code_value(&self) -> (r: u32) {
        *self as u32
    }

    fn as_char(&self) -> (r: char) {
        *self as char
    }
}

/// A unit tagged with its syntactic role.
///
/// Newlines and whitespace keep their unit; each recognised single-character
/// symbol has a variant of its own; `EOF` and `Ignore` are control values that
/// carry no character.
#[allow(non_camel_case_types)]
#[derive(Debug, Clone, Copy, PartialEq, Eq)]
pub enum CodePoint<U> {
    Unit(U),
    Whitespace(U),
    Newline(U),
    EXCLAMATION_MARK,
    QUOTATION_MARK,
    NUMBER_SIGN,
    PERCENTAGE_SIGN,
    AMPERSAND,
    APOSTROPHE,
    ASTERISK,
    PLUS_SIGN,
    HYPHEN_MINUS,
    SOLIDUS,
    LESS_THAN_SIGN,
    GREATER_THAN_SIGN,
    QUESTION_MARK,
    REVERSE_SOLIDUS,
    LEFT_SQUARE_BRACKET,
    RIGHT_SQUARE_BRACKET,
    LEFT_PARENTHESIS,
    RIGHT_PARENTHESIS,
    LEFT_CURLY_BRACKET,
    RIGHT_CURLY_BRACKET,
    FULL_STOP,
    COMMA,
    COLON,
    SEMICOLON,
    EQUALS_SIGN,
    CIRCUMFLEX_ACCENT,
    VERTICAL_LINE,
    TILDE,
    NULL,
    EOF,
    Ignore,
}

/// The symbol variant that stands for the character with code `c`, if any.
pub open spec fn symbol_for<U>(c: u32) -> Option<CodePoint<U>> {
    if c == 0x21 { Some(CodePoint::EXCLAMATION_MARK) }
    else if c == 0x22 { Some(CodePoint::QUOTATION_MARK) }
    else if c == 0x23 { Some(CodePoint::NUMBER_SIGN) }
    else if c == 0x25 { Some(CodePoint::PERCENTAGE_SIGN) }
    else if c == 0x26 { Some(CodePoint::AMPERSAND) }
    else if c == 0x27 { Some(CodePoint::APOSTROPHE) }
    else if c == 0x2A { Some(CodePoint::ASTERISK) }
    else if c == 0x2B { Some(CodePoint::PLUS_SIGN) }
    else if c == 0x2D { Some(CodePoint::HYPHEN_MINUS) }
    else if c == 0x2F { Some(CodePoint::SOLIDUS) }
    else if c == 0x3C { Some(CodePoint::LESS_THAN_SIGN) }
    else if c == 0x3E { Some(CodePoint::GREATER_THAN_SIGN) }
    else if c == 0x3F { Some(CodePoint::QUESTION_MARK) }
    else if c == 0x5C { Some(CodePoint::REVERSE_SOLIDUS) }
    else if c == 0x5B { Some(CodePoint::LEFT_SQUARE_BRACKET) }
    else if c == 0x5D { Some(CodePoint::RIGHT_SQUARE_BRACKET) }
    else if c == 0x28 { Some(CodePoint::LEFT_PARENTHESIS) }
    else if c == 0x29 { Some(CodePoint::RIGHT_PARENTHESIS) }
    else if c == 0x7B { Some(CodePoint::LEFT_CURLY_BRACKET) }
    else if c == 0x7D { Some(CodePoint::RIGHT_CURLY_BRACKET) }
    else if c == 0x2E { Some(CodePoint::FULL_STOP) }
    else if c == 0x2C { Some(CodePoint::COMMA) }
    else if c == 0x3A { Some(CodePoint::COLON) }
    else if c == 0x3B { Some(CodePoint::SEMICOLON) }
    else if c == 0x3D { Some(CodePoint::EQUALS_SIGN) }
    else if c == 0x5E { Some(CodePoint::CIRCUMFLEX_ACCENT) }
    else if c == 0x7C { Some(CodePoint::VERTICAL_LINE) }
    else if c == 0x7E { Some(CodePoint::TILDE) }
    else if c == 0x00 { Some(CodePoint::NULL) }
    else { None }
}

/// Classification of a raw unit: newline first, then whitespace, then the
/// symbol table, then the generic `Unit`.
pub open spec fn classify<U: CodePointInterface>(u: U) -> CodePoint<U> {
    if is_newline_code(u.code()) {
        CodePoint::Newline(u)
    } else if is_whitespace_code(u.code()) {
        CodePoint::Whitespace(u)
    } else if symbol_for::<U>(u.code()) is Some {
        symbol_for::<U>(u.code())->0
    } else {
        CodePoint::Unit(u)
    }
}

impl<U: CodePointInterface> CodePoint<U> {
    /// The code of the character that this code point displays, if any.
    pub open spec fn unit_code(self) -> Option<u32> {
        match self {
            CodePoint::Unit(u) | CodePoint::Whitespace(u) | CodePoint::Newline(u) => Some(u.code()),
            CodePoint::EXCLAMATION_MARK => Some(0x21),
            CodePoint::QUOTATION_MARK => Some(0x22),
            CodePoint::NUMBER_SIGN => Some(0x23),
            CodePoint::PERCENTAGE_SIGN => Some(0x25),
            CodePoint::AMPERSAND => Some(0x26),
            CodePoint::APOSTROPHE => Some(0x27),
            CodePoint::ASTERISK => Some(0x2A),
            CodePoint::PLUS_SIGN => Some(0x2B),
            CodePoint::HYPHEN_MINUS => Some(0x2D),
            CodePoint::SOLIDUS => Some(0x2F),
            CodePoint::LESS_THAN_SIGN => Some(0x3C),
            CodePoint::GREATER_THAN_SIGN => Some(0x3E),
            CodePoint::QUESTION_MARK => Some(0x3F),
            CodePoint::REVERSE_SOLIDUS => Some(0x5C),
            CodePoint::LEFT_SQUARE_BRACKET => Some(0x5B),
            CodePoint::RIGHT_SQUARE_BRACKET => Some(0x5D),
            CodePoint::LEFT_PARENTHESIS => Some(0x28),
            CodePoint::RIGHT_PARENTHESIS => Some(0x29),
            CodePoint::LEFT_CURLY_BRACKET => Some(0x7B),
            CodePoint::RIGHT_CURLY_BRACKET => Some(0x7D),
            CodePoint::FULL_STOP => Some(0x2E),
            CodePoint::COMMA => Some(0x2C),
            CodePoint::COLON => Some(0x3A),
            CodePoint::SEMICOLON => Some(0x3B),
            CodePoint::EQUALS_SIGN => Some(0x3D),
            CodePoint::CIRCUMFLEX_ACCENT => Some(0x5E),
            CodePoint::VERTICAL_LINE => Some(0x7C),
            CodePoint::TILDE => Some(0x7E),
            CodePoint::NULL | CodePoint::EOF | CodePoint::Ignore => None,
        }
    }

    /// Classifies a raw unit.
    pub fn from_unit(unit: U) -> (r: Self)
        ensures
            r == classify(unit),
    {
        if unit.is_newline() {
            return CodePoint::Newline(unit);
        }
        if unit.is_whitespace() {
            return CodePoint::Whitespace(unit);
        }
        let c = unit.code_value();
        if c == 0x21 { CodePoint::EXCLAMATION_MARK }
        else if c == 0x22 { CodePoint::QUOTATION_MARK }
        else if c == 0x23 { CodePoint::NUMBER_SIGN }
        else if c == 0x25 { CodePoint::PERCENTAGE_SIGN }
        else if c == 0x26 { CodePoint::AMPERSAND }
        else if c == 0x27 { CodePoint::APOSTROPHE }
        else if c == 0x2A { CodePoint::ASTERISK }
        else if c == 0x2B { CodePoint::PLUS_SIGN }
        else if c == 0x2D { CodePoint::HYPHEN_MINUS }
        else if c == 0x2F { CodePoint::SOLIDUS }
        else if c == 0x3C { CodePoint::LESS_THAN_SIGN }
        else if c == 0x3E { CodePoint::GREATER_THAN_SIGN }
        else if c == 0x3F { CodePoint::QUESTION_MARK }
        else if c == 0x5C { CodePoint::REVERSE_SOLIDUS }
        else if c == 0x5B { CodePoint::LEFT_SQUARE_BRACKET }
        else if c == 0x5D { CodePoint::RIGHT_SQUARE_BRACKET }
        else if c == 0x28 { CodePoint::LEFT_PARENTHESIS }
        else if c == 0x29 { CodePoint::RIGHT_PARENTHESIS }
        else if c == 0x7B { CodePoint::LEFT_CURLY_BRACKET }
        else if c == 0x7D { CodePoint::RIGHT_CURLY_BRACKET }
        else if c == 0x2E { CodePoint::FULL_STOP }
        else if c == 0x2C { CodePoint::COMMA }
        else if c == 0x3A { CodePoint::COLON }
        else if c == 0x3B { CodePoint::SEMICOLON }
        else if c == 0x3D { CodePoint::EQUALS_SIGN }
        else if c == 0x5E { CodePoint::CIRCUMFLEX_ACCENT }
        else if c == 0x7C { CodePoint::VERTICAL_LINE }
        else if c == 0x7E { CodePoint::TILDE }
        else if c == 0x00 { CodePoint::NULL }
        else { CodePoint::Unit(unit) }
    }

    /// The character that this code point displays; `None` for `NULL`, `EOF`
    /// and `Ignore`.
    pub fn maybe_unit(&self) -> (r: Option<char>)
        ensures
            r is Some <==> self.unit_code() is Some,
            r is Some ==> r->0 as u32 == self.unit_code()->0,
    {
        match self {
            CodePoint::Unit(u) | CodePoint::Whitespace(u) | CodePoint::Newline(u) => Some(u.as_char()),
            CodePoint::EXCLAMATION_MARK => Some('!'),
            CodePoint::QUOTATION_MARK => Some('"'),
            CodePoint::NUMBER_SIGN => Some('#'),
            CodePoint::PERCENTAGE_SIGN => Some('%'),
            CodePoint::AMPERSAND => Some('&'),
            CodePoint::APOSTROPHE => Some('\''),
            CodePoint::ASTERISK => Some('*'),
            CodePoint::PLUS_SIGN => Some('+'),
            CodePoint::HYPHEN_MINUS => Some('-'),
            CodePoint::SOLIDUS => Some('/'),
            CodePoint::LESS_THAN_SIGN => Some('<'),
            CodePoint::GREATER_THAN_SIGN => Some('>'),
            CodePoint::QUESTION_MARK => Some('?'),
            CodePoint::REVERSE_SOLIDUS => Some('\\'),
            CodePoint::LEFT_SQUARE_BRACKET => Some('['),
            CodePoint::RIGHT_SQUARE_BRACKET => Some(']'),
            CodePoint::LEFT_PARENTHESIS => Some('('),
            CodePoint::RIGHT_PARENTHESIS => Some(')'),
            CodePoint::LEFT_CURLY_BRACKET => Some('{'),
            CodePoint::RIGHT_CURLY_BRACKET => Some('}'),
            CodePoint::FULL_STOP => Some('.'),
            CodePoint::COMMA => Some(','),
            CodePoint::COLON => Some(':'),
            CodePoint::SEMICOLON => Some(';'),
            CodePoint::EQUALS_SIGN => Some('='),
            CodePoint::CIRCUMFLEX_ACCENT => Some('^'),
            CodePoint::VERTICAL_LINE => Some('|'),
            CodePoint::TILDE => Some('~'),
            CodePoint::NULL | CodePoint::EOF | CodePoint::Ignore => None,
        }
    }

    pub fn is_ident(&self) -> (r: bool)
        ensures
            r == (self.unit_code() is Some && is_ident_code(self.unit_code()->0)),
    {
        match self.maybe_unit() {
            Some(c) => c.is_ident(),
            None => false,
        }
    }

    pub fn is_ident_start(&self) -> (r: bool)
        ensures
            r == (self.unit_code() is Some && is_ident_start_code(self.unit_code()->0)),
    {
        match self.maybe_unit() {
            Some(c) => c.is_ident_start(),
            None => false,
        }
    }

    pub fn is_ident_after_start(&self) -> (r: bool)
        ensures
            r == (self.unit_code() is Some && is_ident_after_start_code(self.unit_code()->0)),
    {
        match self.maybe_unit() {
            Some(c) => c.is_ident_after_start(),
            None => false,
        }
    }

    pub fn is_newline(&self) -> (r: bool)
        ensures
            r == (self.unit_code() is Some && is_newline_code(self.unit_code()->0)),
    {
        match self.maybe_unit() {
            Some(c) => CodePointInterface::is_newline(&c),
            None => false,
        }
    }

    pub fn is_whitespace(&self) -> (r: bool)
        ensures
            r == (self.unit_code() is Some && is_whitespace_code(self.unit_code()->0)),
    {
        match self.maybe_unit() {
            Some(c) => CodePointInterface::is_whitespace(&c),
            None => false,
        }
    }

    /// Whether the displayed character is `unit`. Only code points that
    /// display a character can be asked.
    pub fn is(&self, unit: char) -> (r: bool)
        requires
            self.unit_code() is Some,
        ensures
            r == (self.unit_code()->0 == unit as u32),
    {
        self.unit().is(unit)
    }

    pub open spec fn spec_is_valid(self) -> bool {
        !(self is NULL || self is EOF || self is Ignore)
    }

    /// Every code point but `NULL`, `EOF` and `Ignore`.
    pub fn is_valid(&self) -> (r: bool)
        ensures
            r == self.spec_is_valid(),
            r == self.unit_code() is Some,
    {
        !matches!(self, CodePoint::NULL | CodePoint::EOF | CodePoint::Ignore)
    }

    /// The displayed character of a valid code point.
    pub fn unit(&self) -> (r: char)
        requires
            self.unit_code() is Some,
        ensures
            r as u32 == self.unit_code()->0,
    {
        self.maybe_unit().unwrap()
    }
}

impl<U: CodePointInterface> From<U> for CodePoint<U> {
    fn from(unit: U) -> (r: Self) {
        CodePoint::from_unit(unit)
    }
}

impl<U: CodePointInterface> vstd::std_specs::convert::FromSpecImpl<U> for CodePoint<U> {
    open spec fn obeys_from_spec() -> bool {
        true
    }

    open spec fn from_spec(unit: U) -> Self {
        classify(unit)
    }
}

/// Classification is a function of the unit, and a newline is classified as
/// a newline even though it is whitespace too: newline first, then
/// whitespace, then the symbol table, then the generic unit.
pub proof fn lemma_classification_priority<U: CodePointInterface>(u: U)
    ensures
        is_newline_code(u.code()) ==> is_whitespace_code(u.code()) && classify(u) == CodePoint::Newline(u),
        !is_newline_code(u.code()) && is_whitespace_code(u.code()) ==> classify(u) == CodePoint::Whitespace(u),
        !is_whitespace_code(u.code()) && symbol_for::<U>(u.code()) is Some ==> classify(u) == symbol_for::<U>(
            u.code(),
        )->0,
        !is_whitespace_code(u.code()) && symbol_for::<U>(u.code()) is None ==> classify(u) == CodePoint::Unit(u),
{
}

} // verus!
