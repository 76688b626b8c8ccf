use vstd::prelude::*;
use crate::codepoint::{CodePoint, CodePointInterface};
use crate::input::{InputStream, InputStreamError, ScanFilter};
use crate::location::push_char;

verus! {

#[allow(non_camel_case_types)]
#[derive(Debug, Clone, Copy, PartialEq, Eq)]
pub enum Symbol {
    ESCAPE,
    AT,
    DOLLAR,
    HASH,
    DOT,
    RANGE,
    RANGE_INCLUSIVE,
    COMMA,
    DOUBLE_COLON,
    COLON,
    SEMICOLON,
    UNDERSCORE,
    TILDE,
    QUESTION_MARK,
    SKINNY_ARROW,
    FAT_ARROW,
}

#[allow(non_camel_case_types)]
#[derive(Debug, Clone, Copy, PartialEq, Eq)]
pub enum BoundaryPairs {
    LEFT_SQUARE_BRACKET,
    RIGHT_SQUARE_BRACKET,
    LEFT_PARENTHESIS,
    RIGHT_PARENTHESIS,
    LEFT_CURLY_BRACKET,
    RIGHT_CURLY_BRACKET,
}

#[allow(non_camel_case_types)]
#[derive(Debug, Clone, Copy, PartialEq, Eq)]
pub enum Assignment {
    EQUAL,
    ADDITION,
    SUBTRACTION,
    MULTIPLICATION,
    DIVISION,
    REMAINDER,
    EXPONENTIATION,
    LEFT_SHIFT,
    RIGHT_SHIFT,
    BITWISE_AND,
    BITWISE_XOR,
    BITWISE_OR,
    LOGICAL_AND,
    LOGICAL_OR,
}

#[allow(non_camel_case_types)]
#[derive(Debug, Clone, Copy, PartialEq, Eq)]
pub enum Comparison {
    EQUAL,
    NOT_EQUAL,
    GREATER_THAN,
    GREATER_THAN_OR_EQUAL,
    LESS_THAN,
    LESS_THAN_OR_EQUAL,
}

#[allow(non_camel_case_types)]
#[derive(Debug, Clone, Copy, PartialEq, Eq)]
pub enum Arithmetic {
    ADDITION,
    SUBTRACTION,
    DIVISION,
    MULTIPLICATION,
    REMAINDER,
    EXPONENTIATION,
}

#[allow(non_camel_case_types)]
#[derive(Debug, Clone, Copy, PartialEq, Eq)]
pub enum Logical {
    AND,
    OR,
    NOT,
}

#[allow(non_camel_case_types)]
#[derive(Debug, Clone, Copy, PartialEq, Eq)]
pub enum Bitwise {
    AND,
    OR,
    XOR,
    NOT,
    LEFT_SHIFT,
    RIGHT_SHIFT,
}

#[derive(Debug, Clone, Copy, PartialEq, Eq)]
pub enum Operator {
    Assignment(Assignment),
    Comparison(Comparison),
    Arithmetic(Arithmetic),
    Bitwise(Bitwise),
    Logical(Logical),
}

/// A delimiter or separator: a symbol, one of a pair of brackets, or an
/// operator.
#[derive(Debug, Clone, Copy, PartialEq, Eq)]
pub enum Delimiter {
    Symbol(Symbol),
    BoundaryPairs(BoundaryPairs),
    Operator(Operator),
}

#[derive(Debug, Clone, PartialEq, Eq)]
pub enum DelimiterParseError {
    /// No delimiter is spelled so; `found` holds the characters read.
    Invalid { found: String },
}

/// The characters of `chars`, as a `String`.
fn text_of(chars: &[char]) -> (r: String)
    ensures
        r@ == chars@,
{
    let mut text = String::new();
    let mut i: usize = 0;
    while i < chars.len()
        invariant
            i <= chars@.len(),
            text@ == chars@.take(i as int),
        decreases chars@.len() - i,
    {
        push_char(&mut text, chars[i]);
        i = i + 1;
        proof {
            assert(text@ =~= chars@.take(i as int));
        }
    }
    proof {
        assert(chars@.take(i as int) =~= chars@);
    }
    text
}

impl Symbol {
    /// How the delimiter is written.
    pub open spec fn spec_sign(self) -> Seq<char> {
        match self {
            Symbol::ESCAPE => seq!['\\'],
            Symbol::AT => seq!['@'],
            Symbol::DOLLAR => seq!['$'],
            Symbol::HASH => seq!['#'],
            Symbol::DOT => seq!['.'],
            Symbol::RANGE => seq!['.', '.'],
            Symbol::RANGE_INCLUSIVE => seq!['.', '.', '='],
            Symbol::COMMA => seq![','],
            Symbol::DOUBLE_COLON => seq![':', ':'],
            Symbol::COLON => seq![':'],
            Symbol::SEMICOLON => seq![';'],
            Symbol::UNDERSCORE => seq!['_'],
            Symbol::TILDE => seq!['`'],
            Symbol::QUESTION_MARK => seq!['?'],
            Symbol::SKINNY_ARROW => seq!['-', '>'],
            Symbol::FAT_ARROW => seq!['=', '>'],
        }
    }

    /// How the delimiter is written.
    pub fn sign(self) -> (r: String)
        ensures
            r@ == self.spec_sign(),
    {
        let chars: &[char] = match self {
            Symbol::ESCAPE => &['\\'],
            Symbol::AT => &['@'],
            Symbol::DOLLAR => &['$'],
            Symbol::HASH => &['#'],
            Symbol::DOT => &['.'],
            Symbol::RANGE => &['.', '.'],
            Symbol::RANGE_INCLUSIVE => &['.', '.', '='],
            Symbol::COMMA => &[','],
            Symbol::DOUBLE_COLON => &[':', ':'],
            Symbol::COLON => &[':'],
            Symbol::SEMICOLON => &[';'],
            Symbol::UNDERSCORE => &['_'],
            Symbol::TILDE => &['`'],
            Symbol::QUESTION_MARK => &['?'],
            Symbol::SKINNY_ARROW => &['-', '>'],
            Symbol::FAT_ARROW => &['=', '>'],
        };
        text_of(chars)
    }
}

impl BoundaryPairs {
    /// How the delimiter is written.
    pub open spec fn spec_sign(self) -> Seq<char> {
        match self {
            BoundaryPairs::LEFT_SQUARE_BRACKET => seq!['['],
            BoundaryPairs::RIGHT_SQUARE_BRACKET => seq![']'],
            BoundaryPairs::LEFT_PARENTHESIS => seq!['('],
            BoundaryPairs::RIGHT_PARENTHESIS => seq![')'],
            BoundaryPairs::LEFT_CURLY_BRACKET => seq!['{'],
            BoundaryPairs::RIGHT_CURLY_BRACKET => seq!['}'],
        }
    }

    /// How the delimiter is written.
    pub fn sign(self) -> (r: String)
        ensures
            r@ == self.spec_sign(),
    {
        let chars: &[char] = match self {
            BoundaryPairs::LEFT_SQUARE_BRACKET => &['['],
            BoundaryPairs::RIGHT_SQUARE_BRACKET => &[']'],
            BoundaryPairs::LEFT_PARENTHESIS => &['('],
            BoundaryPairs::RIGHT_PARENTHESIS => &[')'],
            BoundaryPairs::LEFT_CURLY_BRACKET => &['{'],
            BoundaryPairs::RIGHT_CURLY_BRACKET => &['}'],
        };
        text_of(chars)
    }
}

impl Assignment {
    /// How the delimiter is written.
    pub open spec fn spec_sign(self) -> Seq<char> {
        match self {
            Assignment::EQUAL => seq!['='],
            Assignment::ADDITION => seq!['+', '='],
            Assignment::SUBTRACTION => seq!['-', '='],
            Assignment::MULTIPLICATION => seq!['*', '='],
            Assignment::DIVISION => seq!['/', '='],
            Assignment::REMAINDER => seq!['%', '='],
            Assignment::EXPONENTIATION => seq!['*', '*', '='],
            Assignment::LEFT_SHIFT => seq!['<', '<', '='],
            Assignment::RIGHT_SHIFT => seq!['>', '>', '='],
            Assignment::BITWISE_AND => seq!['&', '='],
            Assignment::BITWISE_XOR => seq!['^', '='],
            Assignment::BITWISE_OR => seq!['|', '='],
            Assignment::LOGICAL_AND => seq!['&', '&', '='],
            Assignment::LOGICAL_OR => seq!['|', '|', '='],
        }
    }

    /// How the delimiter is written.
    pub fn sign(self) -> (r: String)
        ensures
            r@ == self.spec_sign(),
    {
        let chars: &[char] = match self {
            Assignment::EQUAL => &['='],
            Assignment::ADDITION => &['+', '='],
            Assignment::SUBTRACTION => &['-', '='],
            Assignment::MULTIPLICATION => &['*', '='],
            Assignment::DIVISION => &['/', '='],
            Assignment::REMAINDER => &['%', '='],
            Assignment::EXPONENTIATION => &['*', '*', '='],
            Assignment::LEFT_SHIFT => &['<', '<', '='],
            Assignment::RIGHT_SHIFT => &['>', '>', '='],
            Assignment::BITWISE_AND => &['&', '='],
            Assignment::BITWISE_XOR => &['^', '='],
            Assignment::BITWISE_OR => &['|', '='],
            Assignment::LOGICAL_AND => &['&', '&', '='],
            Assignment::LOGICAL_OR => &['|', '|', '='],
        };
        text_of(chars)
    }
}

impl Comparison {
    /// How the delimiter is written.
    pub open spec fn spec_sign(self) -> Seq<char> {
        match self {
            Comparison::EQUAL => seq!['=', '='],
            Comparison::NOT_EQUAL => seq!['!', '='],
            Comparison::GREATER_THAN => seq!['>'],
            Comparison::GREATER_THAN_OR_EQUAL => seq!['>', '='],
            Comparison::LESS_THAN => seq!['<'],
            Comparison::LESS_THAN_OR_EQUAL => seq!['<', '='],
        }
    }

    /// How the delimiter is written.
    pub fn sign(self) -> (r: String)
        ensures
            r@ == self.spec_sign(),
    {
        let chars: &[char] = match self {
            Comparison::EQUAL => &['=', '='],
            Comparison::NOT_EQUAL => &['!', '='],
            Comparison::GREATER_THAN => &['>'],
            Comparison::GREATER_THAN_OR_EQUAL => &['>', '='],
            Comparison::LESS_THAN => &['<'],
            Comparison::LESS_THAN_OR_EQUAL => &['<', '='],
        };
        text_of(chars)
    }
}

impl Arithmetic {
    /// How the delimiter is written.
    pub open spec fn spec_sign(self) -> Seq<char> {
        match self {
            Arithmetic::ADDITION => seq!['+'],
            Arithmetic::SUBTRACTION => seq!['-'],
            Arithmetic::DIVISION => seq!['/'],
            Arithmetic::MULTIPLICATION => seq!['*'],
            Arithmetic::REMAINDER => seq!['%'],
            Arithmetic::EXPONENTIATION => seq!['^', '^'],
        }
    }

    /// How the delimiter is written.
    pub fn sign(self) -> (r: String)
        ensures
            r@ == self.spec_sign(),
    {
        let chars: &[char] = match self {
            Arithmetic::ADDITION => &['+'],
            Arithmetic::SUBTRACTION => &['-'],
            Arithmetic::DIVISION => &['/'],
            Arithmetic::MULTIPLICATION => &['*'],
            Arithmetic::REMAINDER => &['%'],
            Arithmetic::EXPONENTIATION => &['^', '^'],
        };
        text_of(chars)
    }
}

impl Logical {
    /// How the delimiter is written.
    pub open spec fn spec_sign(self) -> Seq<char> {
        match self {
            Logical::AND => seq!['&', '&'],
            Logical::OR => seq!['|', '|'],
            Logical::NOT => seq!['!'],
        }
    }

    /// How the delimiter is written.
    pub fn sign(self) -> (r: String)
        ensures
            r@ == self.spec_sign(),
    {
        let chars: &[char] = match self {
            Logical::AND => &['&', '&'],
            Logical::OR => &['|', '|'],
            Logical::NOT => &['!'],
        };
        text_of(chars)
    }
}

impl Bitwise {
    /// How the delimiter is written.
    pub open spec fn spec_sign(self) -> Seq<char> {
        match self {
            Bitwise::AND => seq!['&'],
            Bitwise::OR => seq!['|'],
            Bitwise::XOR => seq!['^'],
            Bitwise::NOT => seq!['~'],
            Bitwise::LEFT_SHIFT => seq!['<', '<'],
            Bitwise::RIGHT_SHIFT => seq!['>', '>'],
        }
    }

    /// How the delimiter is written.
    pub fn sign(self) -> (r: String)
        ensures
            r@ == self.spec_sign(),
    {
        let chars: &[char] = match self {
            Bitwise::AND => &['&'],
            Bitwise::OR => &['|'],
            Bitwise::XOR => &['^'],
            Bitwise::NOT => &['~'],
            Bitwise::LEFT_SHIFT => &['<', '<'],
            Bitwise::RIGHT_SHIFT => &['>', '>'],
        };
        text_of(chars)
    }
}

/// The delimiter spelled by one code point.
pub open spec fn delimiter_of_one<U: CodePointInterface>(c: CodePoint<U>) -> Option<Delimiter> {
    match c {
        CodePoint::REVERSE_SOLIDUS => Some(Delimiter::Symbol(Symbol::ESCAPE)),
        CodePoint::NUMBER_SIGN => Some(Delimiter::Symbol(Symbol::HASH)),
        CodePoint::FULL_STOP => Some(Delimiter::Symbol(Symbol::DOT)),
        CodePoint::COMMA => Some(Delimiter::Symbol(Symbol::COMMA)),
        CodePoint::COLON => Some(Delimiter::Symbol(Symbol::COLON)),
        CodePoint::SEMICOLON => Some(Delimiter::Symbol(Symbol::SEMICOLON)),
        CodePoint::Unit(u) => if u.code() == 0x40 {
            Some(Delimiter::Symbol(Symbol::AT))
        } else if u.code() == 0x24 {
            Some(Delimiter::Symbol(Symbol::DOLLAR))
        } else if u.code() == 0x5F {
            Some(Delimiter::Symbol(Symbol::UNDERSCORE))
        } else if u.code() == 0x60 {
            Some(Delimiter::Symbol(Symbol::TILDE))
        } else {
            None
        },
        CodePoint::QUESTION_MARK => Some(Delimiter::Symbol(Symbol::QUESTION_MARK)),
        CodePoint::LEFT_SQUARE_BRACKET => Some(Delimiter::BoundaryPairs(BoundaryPairs::LEFT_SQUARE_BRACKET)),
        CodePoint::RIGHT_SQUARE_BRACKET => Some(Delimiter::BoundaryPairs(BoundaryPairs::RIGHT_SQUARE_BRACKET)),
        CodePoint::LEFT_PARENTHESIS => Some(Delimiter::BoundaryPairs(BoundaryPairs::LEFT_PARENTHESIS)),
        CodePoint::RIGHT_PARENTHESIS => Some(Delimiter::BoundaryPairs(BoundaryPairs::RIGHT_PARENTHESIS)),
        CodePoint::LEFT_CURLY_BRACKET => Some(Delimiter::BoundaryPairs(BoundaryPairs::LEFT_CURLY_BRACKET)),
        CodePoint::RIGHT_CURLY_BRACKET => Some(Delimiter::BoundaryPairs(BoundaryPairs::RIGHT_CURLY_BRACKET)),
        CodePoint::EQUALS_SIGN => Some(Delimiter::Operator(Operator::Assignment(Assignment::EQUAL))),
        CodePoint::GREATER_THAN_SIGN => Some(Delimiter::Operator(Operator::Comparison(Comparison::GREATER_THAN))),
        CodePoint::LESS_THAN_SIGN => Some(Delimiter::Operator(Operator::Comparison(Comparison::LESS_THAN))),
        CodePoint::PLUS_SIGN => Some(Delimiter::Operator(Operator::Arithmetic(Arithmetic::ADDITION))),
        CodePoint::HYPHEN_MINUS => Some(Delimiter::Operator(Operator::Arithmetic(Arithmetic::SUBTRACTION))),
        CodePoint::SOLIDUS => Some(Delimiter::Operator(Operator::Arithmetic(Arithmetic::DIVISION))),
        CodePoint::ASTERISK => Some(Delimiter::Operator(Operator::Arithmetic(Arithmetic::MULTIPLICATION))),
        CodePoint::PERCENTAGE_SIGN => Some(Delimiter::Operator(Operator::Arithmetic(Arithmetic::REMAINDER))),
        CodePoint::EXCLAMATION_MARK => Some(Delimiter::Operator(Operator::Logical(Logical::NOT))),
        CodePoint::AMPERSAND => Some(Delimiter::Operator(Operator::Bitwise(Bitwise::AND))),
        CodePoint::VERTICAL_LINE => Some(Delimiter::Operator(Operator::Bitwise(Bitwise::OR))),
        CodePoint::CIRCUMFLEX_ACCENT => Some(Delimiter::Operator(Operator::Bitwise(Bitwise::XOR))),
        CodePoint::TILDE => Some(Delimiter::Operator(Operator::Bitwise(Bitwise::NOT))),
        _ => None,
    }
}

/// The delimiter spelled by two code points.
pub open spec fn delimiter_of_two<U>(a: CodePoint<U>, b: CodePoint<U>) -> Option<Delimiter> {
    match (a, b) {
        (CodePoint::FULL_STOP, CodePoint::FULL_STOP) => Some(Delimiter::Symbol(Symbol::RANGE)),
        (CodePoint::COLON, CodePoint::COLON) => Some(Delimiter::Symbol(Symbol::DOUBLE_COLON)),
        (CodePoint::HYPHEN_MINUS, CodePoint::GREATER_THAN_SIGN) => Some(Delimiter::Symbol(Symbol::SKINNY_ARROW)),
        (CodePoint::EQUALS_SIGN, CodePoint::GREATER_THAN_SIGN) => Some(Delimiter::Symbol(Symbol::FAT_ARROW)),
        (CodePoint::PLUS_SIGN, CodePoint::EQUALS_SIGN) => Some(Delimiter::Operator(Operator::Assignment(Assignment::ADDITION))),
        (CodePoint::HYPHEN_MINUS, CodePoint::EQUALS_SIGN) => Some(Delimiter::Operator(Operator::Assignment(Assignment::SUBTRACTION))),
        (CodePoint::ASTERISK, CodePoint::EQUALS_SIGN) => Some(Delimiter::Operator(Operator::Assignment(Assignment::MULTIPLICATION))),
        (CodePoint::SOLIDUS, CodePoint::EQUALS_SIGN) => Some(Delimiter::Operator(Operator::Assignment(Assignment::DIVISION))),
        (CodePoint::PERCENTAGE_SIGN, CodePoint::EQUALS_SIGN) => Some(Delimiter::Operator(Operator::Assignment(Assignment::REMAINDER))),
        (CodePoint::AMPERSAND, CodePoint::EQUALS_SIGN) => Some(Delimiter::Operator(Operator::Assignment(Assignment::BITWISE_AND))),
        (CodePoint::CIRCUMFLEX_ACCENT, CodePoint::EQUALS_SIGN) => Some(Delimiter::Operator(Operator::Assignment(Assignment::BITWISE_XOR))),
        (CodePoint::VERTICAL_LINE, CodePoint::EQUALS_SIGN) => Some(Delimiter::Operator(Operator::Assignment(Assignment::BITWISE_OR))),
        (CodePoint::EQUALS_SIGN, CodePoint::EQUALS_SIGN) => Some(Delimiter::Operator(Operator::Comparison(Comparison::EQUAL))),
        (CodePoint::EXCLAMATION_MARK, CodePoint::EQUALS_SIGN) => Some(Delimiter::Operator(Operator::Comparison(Comparison::NOT_EQUAL))),
        (CodePoint::LESS_THAN_SIGN, CodePoint::EQUALS_SIGN) => Some(Delimiter::Operator(Operator::Comparison(Comparison::LESS_THAN_OR_EQUAL))),
        (CodePoint::GREATER_THAN_SIGN, CodePoint::EQUALS_SIGN) => Some(Delimiter::Operator(Operator::Comparison(Comparison::GREATER_THAN_OR_EQUAL))),
        (CodePoint::CIRCUMFLEX_ACCENT, CodePoint::CIRCUMFLEX_ACCENT) => Some(Delimiter::Operator(Operator::Arithmetic(Arithmetic::EXPONENTIATION))),
        (CodePoint::AMPERSAND, CodePoint::AMPERSAND) => Some(Delimiter::Operator(Operator::Logical(Logical::AND))),
        (CodePoint::VERTICAL_LINE, CodePoint::VERTICAL_LINE) => Some(Delimiter::Operator(Operator::Logical(Logical::OR))),
        (CodePoint::LESS_THAN_SIGN, CodePoint::LESS_THAN_SIGN) => Some(Delimiter::Operator(Operator::Bitwise(Bitwise::LEFT_SHIFT))),
        (CodePoint::GREATER_THAN_SIGN, CodePoint::GREATER_THAN_SIGN) => Some(Delimiter::Operator(Operator::Bitwise(Bitwise::RIGHT_SHIFT))),
        _ => None,
    }
}

/// The delimiter spelled by three code points.
pub open spec fn delimiter_of_three<U>(a: CodePoint<U>, b: CodePoint<U>, c: CodePoint<U>) -> Option<Delimiter> {
    match (a, b, c) {
        (CodePoint::FULL_STOP, CodePoint::FULL_STOP, CodePoint::EQUALS_SIGN) => Some(Delimiter::Symbol(Symbol::RANGE_INCLUSIVE)),
        (CodePoint::LESS_THAN_SIGN, CodePoint::LESS_THAN_SIGN, CodePoint::EQUALS_SIGN) => Some(Delimiter::Operator(Operator::Assignment(Assignment::LEFT_SHIFT))),
        (CodePoint::GREATER_THAN_SIGN, CodePoint::GREATER_THAN_SIGN, CodePoint::EQUALS_SIGN) => Some(Delimiter::Operator(Operator::Assignment(Assignment::RIGHT_SHIFT))),
        (CodePoint::AMPERSAND, CodePoint::AMPERSAND, CodePoint::EQUALS_SIGN) => Some(Delimiter::Operator(Operator::Assignment(Assignment::LOGICAL_AND))),
        (CodePoint::VERTICAL_LINE, CodePoint::VERTICAL_LINE, CodePoint::EQUALS_SIGN) => Some(Delimiter::Operator(Operator::Assignment(Assignment::LOGICAL_OR))),
        _ => None,
    }
}

/// The characters that a sequence of code points displays, in order; code
/// points that display none (`NULL`, `EOF`, `Ignore`) contribute nothing.
pub open spec fn displayed_codes<U: CodePointInterface>(s: Seq<CodePoint<U>>) -> Seq<u32>
    decreases s.len(),
{
    if s.len() == 0 {
        Seq::empty()
    } else {
        let rest = displayed_codes(s.drop_last());
        match s.last().unit_code() {
            Some(c) => rest.push(c),
            None => rest,
        }
    }
}

pub open spec fn codes_of(s: Seq<char>) -> Seq<u32> {
    s.map_values(|c: char| c as u32)
}

/// The text of the characters displayed by `codepoints`.
fn displayed_text<U: CodePointInterface>(codepoints: &[CodePoint<U>]) -> (r: String)
    ensures
        codes_of(r@) == displayed_codes(codepoints@),
{
    let mut text = String::new();
    let mut i: usize = 0;
    proof {
        assert(codes_of(text@) =~= displayed_codes(codepoints@.take(0)));
    }
    while i < codepoints.len()
        invariant
            i <= codepoints@.len(),
            codes_of(text@) == displayed_codes(codepoints@.take(i as int)),
        decreases codepoints@.len() - i,
    {
        let ghost before = text@;
        let c = codepoints[i];
        proof {
            assert(codepoints@.take(i + 1).drop_last() =~= codepoints@.take(i as int));
            assert(codepoints@.take(i + 1).last() == c);
        }
        match c.maybe_unit() {
            Some(ch) => {
                push_char(&mut text, ch);
                proof {
                    assert(codes_of(text@) =~= codes_of(before).push(ch as u32));
                }
            },
            None => {},
        }
        i = i + 1;
    }
    proof {
        assert(codepoints@.take(i as int) =~= codepoints@);
    }
    text
}

impl Delimiter {
    /// The delimiter spelled by one code point. A code point that spells
    /// none is returned as text in the error (empty for one that displays no
    /// character).
    pub fn try_from_codepoint<U: CodePointInterface>(codepoint: CodePoint<U>) -> (r: Result<Delimiter, DelimiterParseError>)
        ensures
            match delimiter_of_one(codepoint) {
                Some(d) => r == Ok::<Delimiter, DelimiterParseError>(d),
                None => r matches Err(DelimiterParseError::Invalid { found }) && codes_of(found@)
                    == displayed_codes(seq![codepoint]),
            },
    {
        let d = match codepoint {
            CodePoint::REVERSE_SOLIDUS => Delimiter::Symbol(Symbol::ESCAPE),
            CodePoint::NUMBER_SIGN => Delimiter::Symbol(Symbol::HASH),
            CodePoint::FULL_STOP => Delimiter::Symbol(Symbol::DOT),
            CodePoint::COMMA => Delimiter::Symbol(Symbol::COMMA),
            CodePoint::COLON => Delimiter::Symbol(Symbol::COLON),
            CodePoint::SEMICOLON => Delimiter::Symbol(Symbol::SEMICOLON),
            CodePoint::Unit(u) if u.is('@') => Delimiter::Symbol(Symbol::AT),
            CodePoint::Unit(u) if u.is('$') => Delimiter::Symbol(Symbol::DOLLAR),
            CodePoint::Unit(u) if u.is('_') => Delimiter::Symbol(Symbol::UNDERSCORE),
            CodePoint::Unit(u) if u.is('`') => Delimiter::Symbol(Symbol::TILDE),
            CodePoint::QUESTION_MARK => Delimiter::Symbol(Symbol::QUESTION_MARK),
            CodePoint::LEFT_SQUARE_BRACKET => Delimiter::BoundaryPairs(BoundaryPairs::LEFT_SQUARE_BRACKET),
            CodePoint::RIGHT_SQUARE_BRACKET => Delimiter::BoundaryPairs(BoundaryPairs::RIGHT_SQUARE_BRACKET),
            CodePoint::LEFT_PARENTHESIS => Delimiter::BoundaryPairs(BoundaryPairs::LEFT_PARENTHESIS),
            CodePoint::RIGHT_PARENTHESIS => Delimiter::BoundaryPairs(BoundaryPairs::RIGHT_PARENTHESIS),
            CodePoint::LEFT_CURLY_BRACKET => Delimiter::BoundaryPairs(BoundaryPairs::LEFT_CURLY_BRACKET),
            CodePoint::RIGHT_CURLY_BRACKET => Delimiter::BoundaryPairs(BoundaryPairs::RIGHT_CURLY_BRACKET),
            CodePoint::EQUALS_SIGN => Delimiter::Operator(Operator::Assignment(Assignment::EQUAL)),
            CodePoint::GREATER_THAN_SIGN => Delimiter::Operator(Operator::Comparison(Comparison::GREATER_THAN)),
            CodePoint::LESS_THAN_SIGN => Delimiter::Operator(Operator::Comparison(Comparison::LESS_THAN)),
            CodePoint::PLUS_SIGN => Delimiter::Operator(Operator::Arithmetic(Arithmetic::ADDITION)),
            CodePoint::HYPHEN_MINUS => Delimiter::Operator(Operator::Arithmetic(Arithmetic::SUBTRACTION)),
            CodePoint::SOLIDUS => Delimiter::Operator(Operator::Arithmetic(Arithmetic::DIVISION)),
            CodePoint::ASTERISK => Delimiter::Operator(Operator::Arithmetic(Arithmetic::MULTIPLICATION)),
            CodePoint::PERCENTAGE_SIGN => Delimiter::Operator(Operator::Arithmetic(Arithmetic::REMAINDER)),
            CodePoint::EXCLAMATION_MARK => Delimiter::Operator(Operator::Logical(Logical::NOT)),
            CodePoint::AMPERSAND => Delimiter::Operator(Operator::Bitwise(Bitwise::AND)),
            CodePoint::VERTICAL_LINE => Delimiter::Operator(Operator::Bitwise(Bitwise::OR)),
            CodePoint::CIRCUMFLEX_ACCENT => Delimiter::Operator(Operator::Bitwise(Bitwise::XOR)),
            CodePoint::TILDE => Delimiter::Operator(Operator::Bitwise(Bitwise::NOT)),
            _ => {
                let window = [codepoint];
                proof {
                    assert(window@ =~= seq![codepoint]);
                }
                return Err(DelimiterParseError::Invalid { found: displayed_text(&window) });
            },
        };
        Ok(d)
    }

    /// The delimiter spelled by two code points.
    pub fn try_from_pair<U: CodePointInterface>(codepoints: [CodePoint<U>; 2]) -> (r: Result<Delimiter, DelimiterParseError>)
        ensures
            match delimiter_of_two(codepoints@[0], codepoints@[1]) {
                Some(d) => r == Ok::<Delimiter, DelimiterParseError>(d),
                None => r matches Err(DelimiterParseError::Invalid { found }) && codes_of(found@)
                    == displayed_codes(codepoints@),
            },
    {
        let d = match (codepoints[0], codepoints[1]) {
            (CodePoint::FULL_STOP, CodePoint::FULL_STOP) => Delimiter::Symbol(Symbol::RANGE),
            (CodePoint::COLON, CodePoint::COLON) => Delimiter::Symbol(Symbol::DOUBLE_COLON),
            (CodePoint::HYPHEN_MINUS, CodePoint::GREATER_THAN_SIGN) => Delimiter::Symbol(Symbol::SKINNY_ARROW),
            (CodePoint::EQUALS_SIGN, CodePoint::GREATER_THAN_SIGN) => Delimiter::Symbol(Symbol::FAT_ARROW),
            (CodePoint::PLUS_SIGN, CodePoint::EQUALS_SIGN) => Delimiter::Operator(Operator::Assignment(Assignment::ADDITION)),
            (CodePoint::HYPHEN_MINUS, CodePoint::EQUALS_SIGN) => Delimiter::Operator(Operator::Assignment(Assignment::SUBTRACTION)),
            (CodePoint::ASTERISK, CodePoint::EQUALS_SIGN) => Delimiter::Operator(Operator::Assignment(Assignment::MULTIPLICATION)),
            (CodePoint::SOLIDUS, CodePoint::EQUALS_SIGN) => Delimiter::Operator(Operator::Assignment(Assignment::DIVISION)),
            (CodePoint::PERCENTAGE_SIGN, CodePoint::EQUALS_SIGN) => Delimiter::Operator(Operator::Assignment(Assignment::REMAINDER)),
            (CodePoint::AMPERSAND, CodePoint::EQUALS_SIGN) => Delimiter::Operator(Operator::Assignment(Assignment::BITWISE_AND)),
            (CodePoint::CIRCUMFLEX_ACCENT, CodePoint::EQUALS_SIGN) => Delimiter::Operator(Operator::Assignment(Assignment::BITWISE_XOR)),
            (CodePoint::VERTICAL_LINE, CodePoint::EQUALS_SIGN) => Delimiter::Operator(Operator::Assignment(Assignment::BITWISE_OR)),
            (CodePoint::EQUALS_SIGN, CodePoint::EQUALS_SIGN) => Delimiter::Operator(Operator::Comparison(Comparison::EQUAL)),
            (CodePoint::EXCLAMATION_MARK, CodePoint::EQUALS_SIGN) => Delimiter::Operator(Operator::Comparison(Comparison::NOT_EQUAL)),
            (CodePoint::LESS_THAN_SIGN, CodePoint::EQUALS_SIGN) => Delimiter::Operator(Operator::Comparison(Comparison::LESS_THAN_OR_EQUAL)),
            (CodePoint::GREATER_THAN_SIGN, CodePoint::EQUALS_SIGN) => Delimiter::Operator(Operator::Comparison(Comparison::GREATER_THAN_OR_EQUAL)),
            (CodePoint::CIRCUMFLEX_ACCENT, CodePoint::CIRCUMFLEX_ACCENT) => Delimiter::Operator(Operator::Arithmetic(Arithmetic::EXPONENTIATION)),
            (CodePoint::AMPERSAND, CodePoint::AMPERSAND) => Delimiter::Operator(Operator::Logical(Logical::AND)),
            (CodePoint::VERTICAL_LINE, CodePoint::VERTICAL_LINE) => Delimiter::Operator(Operator::Logical(Logical::OR)),
            (CodePoint::LESS_THAN_SIGN, CodePoint::LESS_THAN_SIGN) => Delimiter::Operator(Operator::Bitwise(Bitwise::LEFT_SHIFT)),
            (CodePoint::GREATER_THAN_SIGN, CodePoint::GREATER_THAN_SIGN) => Delimiter::Operator(Operator::Bitwise(Bitwise::RIGHT_SHIFT)),
            _ => {
                return Err(DelimiterParseError::Invalid { found: displayed_text(&codepoints) });
            },
        };
        Ok(d)
    }

    /// The delimiter spelled by three code points.
    pub fn try_from_triple<U: CodePointInterface>(codepoints: [CodePoint<U>; 3]) -> (r: Result<Delimiter, DelimiterParseError>)
        ensures
            match delimiter_of_three(codepoints@[0], codepoints@[1], codepoints@[2]) {
                Some(d) => r == Ok::<Delimiter, DelimiterParseError>(d),
                None => r matches Err(DelimiterParseError::Invalid { found }) && codes_of(found@)
                    == displayed_codes(codepoints@),
            },
    {
        let d = match (codepoints[0], codepoints[1], codepoints[2]) {
            (CodePoint::FULL_STOP, CodePoint::FULL_STOP, CodePoint::EQUALS_SIGN) => Delimiter::Symbol(Symbol::RANGE_INCLUSIVE),
            (CodePoint::LESS_THAN_SIGN, CodePoint::LESS_THAN_SIGN, CodePoint::EQUALS_SIGN) => Delimiter::Operator(Operator::Assignment(Assignment::LEFT_SHIFT)),
            (CodePoint::GREATER_THAN_SIGN, CodePoint::GREATER_THAN_SIGN, CodePoint::EQUALS_SIGN) => Delimiter::Operator(Operator::Assignment(Assignment::RIGHT_SHIFT)),
            (CodePoint::AMPERSAND, CodePoint::AMPERSAND, CodePoint::EQUALS_SIGN) => Delimiter::Operator(Operator::Assignment(Assignment::LOGICAL_AND)),
            (CodePoint::VERTICAL_LINE, CodePoint::VERTICAL_LINE, CodePoint::EQUALS_SIGN) => Delimiter::Operator(Operator::Assignment(Assignment::LOGICAL_OR)),
            _ => {
                return Err(DelimiterParseError::Invalid { found: displayed_text(&codepoints) });
            },
        };
        Ok(d)
    }
}

/// The longest delimiter at the start of `w`, with its width: three code
/// points are tried first, then two, then one.
pub open spec fn longest_delimiter<U: CodePointInterface>(w: Seq<CodePoint<U>>) -> Option<(Delimiter, nat)> {
    if w.len() >= 3 && delimiter_of_three(w[0], w[1], w[2]) is Some {
        Some((delimiter_of_three(w[0], w[1], w[2])->0, 3))
    } else if w.len() >= 2 && delimiter_of_two(w[0], w[1]) is Some {
        Some((delimiter_of_two(w[0], w[1])->0, 2))
    } else if w.len() >= 1 && delimiter_of_one(w[0]) is Some {
        Some((delimiter_of_one(w[0])->0, 1))
    } else {
        None
    }
}

impl Delimiter {
    /// The longest delimiter at the start of `window`, and how many code
    /// points it spans. When none matches at any width, the error holds the
    /// text of the first code point.
    pub fn longest_match<U: CodePointInterface>(window: &[CodePoint<U>]) -> (r: Result<(Delimiter, usize), DelimiterParseError>)
        ensures
            match longest_delimiter(window@) {
                Some((d, n)) => r == Ok::<(Delimiter, usize), DelimiterParseError>((d, n as usize)),
                None => r matches Err(DelimiterParseError::Invalid { found }) && codes_of(found@) == (
                if window@.len() == 0 {
                    Seq::<u32>::empty()
                } else {
                    displayed_codes(seq![window@[0]])
                }),
            },
    {
        if window.len() >= 3 {
            if let Ok(d) = Delimiter::try_from_triple([window[0], window[1], window[2]]) {
                return Ok((d, 3));
            }
        }
        if window.len() >= 2 {
            if let Ok(d) = Delimiter::try_from_pair([window[0], window[1]]) {
                return Ok((d, 2));
            }
        }
        if window.len() == 0 {
            let found = String::new();
            proof {
                assert(codes_of(found@) =~= Seq::<u32>::empty());
            }
            return Err(DelimiterParseError::Invalid { found });
        }
        match Delimiter::try_from_codepoint(window[0]) {
            Ok(d) => Ok((d, 1)),
            Err(e) => Err(e),
        }
    }
}

/// Reads the longest delimiter at the front of the stream (maximal munch)
/// and consumes its code points; when none matches, nothing is consumed.
pub fn consume_delimiter<U: CodePointInterface, F: ScanFilter<U>>(stream: &mut InputStream<U, F>) -> (r: Result<
    Delimiter,
    DelimiterParseError,
>)
    requires
        old(stream).wf(),
    ensures
        final(stream).wf(),
        final(stream).filter() == old(stream).filter(),
        ({
            let u = old(stream).upcoming();
            match longest_delimiter(u) {
                Some((d, n)) => r == Ok::<Delimiter, DelimiterParseError>(d) && final(stream).upcoming()
                    == u.skip(n as int),
                None => r is Err && final(stream).upcoming() == u,
            }
        }),
{
    let ghost u = stream.upcoming();
    let ahead = stream.peek_n_next(3);
    let mut window: Vec<CodePoint<U>> = Vec::new();
    let mut k: usize = 0;
    while k < 3
        invariant
            k <= 3,
            ahead@.len() == 3,
            window@.len() == k,
            forall|i: int|
                0 <= i < 3 ==> #[trigger] ahead@[i] == Ok::<CodePoint<U>, InputStreamError>(
                    if i < u.len() { u[i] } else { CodePoint::EOF },
                ),
            forall|i: int| 0 <= i < k ==> #[trigger] window@[i] == (if i < u.len() { u[i] } else { CodePoint::EOF }),
        decreases 3 - k,
    {
        let c = match ahead[k] {
            Ok(c) => c,
            Err(_) => CodePoint::EOF,
        };
        window.push(c);
        k = k + 1;
    }
    proof {
        assert(window@[0] == (if 0 < u.len() { u[0] } else { CodePoint::EOF }));
        assert(window@[1] == (if 1 < u.len() { u[1] } else { CodePoint::EOF }));
        assert(window@[2] == (if 2 < u.len() { u[2] } else { CodePoint::EOF }));
        assert(longest_delimiter(window@) == longest_delimiter(u));
    }
    let (d, n) = match Delimiter::longest_match(window.as_slice()) {
        Ok(found) => found,
        Err(e) => {
            return Err(e);
        },
    };
    let mut consumed: usize = 0;
    proof {
        assert(u.skip(0) =~= u);
    }
    while consumed < n
        invariant
            stream.wf(),
            stream.filter() == old(stream).filter(),
            consumed <= n <= 3,
            n <= u.len(),
            stream.upcoming() == u.skip(consumed as int),
        decreases n - consumed,
    {
        let _ = stream.consume_next();
        proof {
            assert(u.skip(consumed as int).drop_first() =~= u.skip(consumed + 1));
        }
        consumed = consumed + 1;
    }
    Ok(d)
}

} // verus!
