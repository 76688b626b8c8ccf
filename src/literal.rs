use vstd::prelude::*;
use crate::codepoint::{is_digit_code, CodePoint, CodePointInterface};
use crate::comment::push_displayed;
use crate::delimiter::{codes_of, displayed_codes};
use crate::identifier::continues_ident;
use crate::input::{InputStream, InputStreamError, ScanFilter};
use crate::location::{push_char, saturating, Location};

verus! {

/// A numeric literal, tagged by its base, with its text: the whole literal
/// for a decimal, the digits after the prefix for the other bases.
#[derive(Debug, Clone, PartialEq, Eq)]
pub enum Integer {
    Decimal { dec: String },
    Hexadecimal { hex: String },
    Binary { bin: String },
    Octal { oct: String },
}

impl Integer {
    pub open spec fn base(&self) -> nat {
        match self {
            Integer::Decimal { .. } => 10,
            Integer::Hexadecimal { .. } => 16,
            Integer::Binary { .. } => 2,
            Integer::Octal { .. } => 8,
        }
    }

    pub open spec fn text(&self) -> Seq<char> {
        match self {
            Integer::Decimal { dec } => dec@,
            Integer::Hexadecimal { hex } => hex@,
            Integer::Binary { bin } => bin@,
            Integer::Octal { oct } => oct@,
        }
    }
}

#[derive(Debug, Clone, PartialEq, Eq)]
pub struct IntegerOutput {
    pub integer: Integer,
    pub location: Location,
}

#[derive(Debug, Clone, Copy, PartialEq, Eq)]
pub enum Bool {
    True,
    False,
}

impl Bool {
    pub fn from_bool(b: bool) -> (r: Bool)
        ensures
            r == (if b { Bool::True } else { Bool::False }),
    {
        if b { Bool::True } else { Bool::False }
    }

    pub fn to_bool(self) -> (r: bool)
        ensures
            r == (self == Bool::True),
    {
        match self {
            Bool::True => true,
            Bool::False => false,
        }
    }
}

#[derive(Debug, Clone, Copy, PartialEq, Eq)]
pub struct BoolOutput {
    pub value: Bool,
    pub location: Location,
}

/// A string literal's text, without its quotes, and a location whose column
/// advances with each character appended.
#[derive(Debug, Clone, PartialEq, Eq)]
pub struct StringOutput {
    pub data: String,
    pub location: Location,
}

impl StringOutput {
    /// Appends a character and moves the column on by one.
    pub fn append(&mut self, ch: char)
        ensures
            final(self).data@ == old(self).data@.push(ch),
            final(self).location == (Location {
                column: saturating(old(self).location.column + 1),
                ..old(self).location
            }),
    {
        push_char(&mut self.data, ch);
        self.location.increment_column();
    }
}

#[derive(Debug, Clone, Copy, PartialEq, Eq)]
pub enum IntegerParseError {
    /// The code point found cannot start a number.
    IsNot { found: char },
}

#[derive(Debug, Clone, Copy, PartialEq, Eq)]
pub enum StringParseError {
    /// The code point found cannot start a string.
    IsNot { found: char },
    /// The string holds a code point that has no character.
    BadString,
    /// The input ended inside the string; the location is where it starts.
    Unterminated { line: usize, column: usize },
}

#[derive(Debug, Clone, Copy, PartialEq, Eq)]
pub enum LiteralParseError {
    Integer(IntegerParseError),
    String(StringParseError),
}

#[derive(Debug, Clone, PartialEq, Eq)]
pub enum Literal {
    Integer(IntegerOutput),
    String(StringOutput),
    Bool(BoolOutput),
}

/// The states that a number is read through.
#[derive(Debug, Clone, Copy, PartialEq, Eq)]
pub enum IntegerState {
    Initial,
    Zero,
    DecimalInteger,
    DecimalFloat,
    Hexadecimal,
    Binary,
    Octal,
    IsNot,
}

impl IntegerState {
    pub fn switch(&mut self, new_state: Self)
        ensures
            *final(self) == new_state,
    {
        *self = new_state;
    }
}

/// The states that a string is read through.
#[derive(Debug, Clone, Copy, PartialEq, Eq)]
pub enum StringState {
    Initial,
    SingleQuoted,
    DoubleQuoted,
}

impl StringState {
    pub fn switch(&mut self, new_state: Self)
        ensures
            *final(self) == new_state,
    {
        *self = new_state;
    }
}

/// Whether `c` displays a digit of `base` (2, 8, 10 or 16).
pub open spec fn is_digit_of<U: CodePointInterface>(c: CodePoint<U>, base: nat) -> bool {
    c.unit_code() is Some && {
        let x = c.unit_code()->0;
        if base == 16 {
            is_digit_code(x) || (0x61 <= x <= 0x66) || (0x41 <= x <= 0x46)
        } else if base == 8 {
            0x30 <= x <= 0x37
        } else if base == 2 {
            x == 0x30 || x == 0x31
        } else {
            is_digit_code(x)
        }
    }
}

/// Where a run of digits of `base` that begins at `i` ends.
pub open spec fn run_end<U: CodePointInterface>(u: Seq<CodePoint<U>>, i: int, base: nat) -> int
    decreases u.len() - i,
{
    if 0 <= i < u.len() && is_digit_of(u[i], base) {
        run_end(u, i + 1, base)
    } else {
        i
    }
}

/// The base that a prefix letter after a leading `0` selects (`x`, `b`,
/// `o`); 0 for any other code point.
pub open spec fn prefix_base<U: CodePointInterface>(c: CodePoint<U>) -> nat {
    if c.unit_code() == Some(0x78u32) {
        16
    } else if c.unit_code() == Some(0x62u32) {
        2
    } else if c.unit_code() == Some(0x6Fu32) {
        8
    } else {
        0
    }
}

pub open spec fn has_base_prefix<U: CodePointInterface>(u: Seq<CodePoint<U>>) -> bool {
    u.len() >= 2 && u[0].unit_code() == Some(0x30u32) && prefix_base(u[1]) != 0
}

/// The base of the number at the start of `u` and the span of its text:
/// `0x`, `0b` or `0o` followed by at least one digit of that base; or decimal
/// digits, with a fraction when a `.` and a digit follow them; or a `.`
/// followed by decimal digits. `None` when no number starts there.
pub open spec fn numeric_span<U: CodePointInterface>(u: Seq<CodePoint<U>>) -> Option<(nat, int, int)> {
    if has_base_prefix(u) {
        let b = prefix_base(u[1]);
        if u.len() >= 3 && is_digit_of(u[2], b) {
            Some((b, 2, run_end(u, 2, b)))
        } else {
            None
        }
    } else if u.len() >= 1 && is_digit_of(u[0], 10) {
        let e = run_end(u, 0, 10);
        if e + 1 < u.len() && u[e] is FULL_STOP && is_digit_of(u[e + 1], 10) {
            Some((10, 0, run_end(u, e + 1, 10)))
        } else {
            Some((10, 0, e))
        }
    } else if u.len() >= 2 && u[0] is FULL_STOP && is_digit_of(u[1], 10) {
        Some((10, 0, run_end(u, 1, 10)))
    } else {
        None
    }
}

/// The code of the character displayed at `p`; 0 when there is none.
pub open spec fn found_code<U: CodePointInterface>(u: Seq<CodePoint<U>>, p: int) -> u32 {
    if 0 <= p < u.len() && u[p].unit_code() is Some {
        u[p].unit_code()->0
    } else {
        0
    }
}

proof fn lemma_run_end_bounds<U: CodePointInterface>(u: Seq<CodePoint<U>>, i: int, base: nat)
    requires
        0 <= i <= u.len(),
    ensures
        i <= run_end(u, i, base) <= u.len(),
    decreases u.len() - i,
{
    if i < u.len() && is_digit_of(u[i], base) {
        lemma_run_end_bounds(u, i + 1, base);
    }
}

proof fn lemma_displayed_concat<U: CodePointInterface>(a: Seq<CodePoint<U>>, b: Seq<CodePoint<U>>)
    ensures
        displayed_codes(a + b) == displayed_codes(a) + displayed_codes(b),
    decreases b.len(),
{
    if b.len() == 0 {
        assert(a + b =~= a);
        assert(displayed_codes(a) + displayed_codes(b) =~= displayed_codes(a));
    } else {
        lemma_displayed_concat(a, b.drop_last());
        assert((a + b).drop_last() =~= a + b.drop_last());
        assert((a + b).last() == b.last());
        match b.last().unit_code() {
            Some(c) => {
                assert(displayed_codes(a) + displayed_codes(b) =~= (displayed_codes(a) + displayed_codes(
                    b.drop_last(),
                )).push(c));
            },
            None => {},
        }
    }
}

fn found_char<U: CodePointInterface>(c: CodePoint<U>) -> (r: char)
    ensures
        r as u32 == match c.unit_code() {
            Some(x) => x,
            None => 0,
        },
{
    match c.maybe_unit() {
        Some(ch) => ch,
        None => '\0',
    }
}

fn digit_of<U: CodePointInterface>(c: &CodePoint<U>, base: u32) -> (r: bool)
    ensures
        r == is_digit_of(*c, base as nat),
{
    match c.maybe_unit() {
        Some(ch) => {
            let x = ch as u32;
            if base == 16 {
                (0x30 <= x && x <= 0x39) || (0x61 <= x && x <= 0x66) || (0x41 <= x && x <= 0x46)
            } else if base == 8 {
                0x30 <= x && x <= 0x37
            } else if base == 2 {
                x == 0x30 || x == 0x31
            } else {
                0x30 <= x && x <= 0x39
            }
        },
        None => false,
    }
}

proof fn lemma_run_end_shift<U: CodePointInterface>(u: Seq<CodePoint<U>>, i: int, j: int, base: nat)
    requires
        0 <= i <= u.len(),
        0 <= j,
    ensures
        run_end(u.skip(i), j, base) == run_end(u, i + j, base) - i,
    decreases u.len() - (i + j),
{
    if i + j < u.len() {
        assert(u.skip(i)[j] == u[i + j]);
        lemma_run_end_shift(u, i, j + 1, base);
    }
}

/// The code point at position `i` of a lookahead window.
fn window_at<U: CodePointInterface>(ahead: &Vec<Result<CodePoint<U>, InputStreamError>>, i: usize) -> (r: CodePoint<U>)
    requires
        i < ahead@.len(),
        ahead@[i as int] is Ok,
    ensures
        r == ahead@[i as int]->Ok_0,
{
    match ahead[i] {
        Ok(c) => c,
        Err(_) => CodePoint::EOF,
    }
}

/// Consumes the digits of `base` at the front of the stream, appending
/// their characters to `text`.
fn consume_run<U: CodePointInterface, F: ScanFilter<U>>(stream: &mut InputStream<U, F>, text: &mut String, base: u32)
    requires
        old(stream).wf(),
    ensures
        final(stream).wf(),
        final(stream).filter() == old(stream).filter(),
        final(stream).upcoming() == old(stream).upcoming().skip(run_end(old(stream).upcoming(), 0, base as nat)),
        codes_of(final(text)@) == codes_of(old(text)@) + displayed_codes(
            old(stream).upcoming().take(run_end(old(stream).upcoming(), 0, base as nat)),
        ),
{
    let ghost u = stream.upcoming();
    let ghost t0 = codes_of(text@);
    let mut i: usize = 0;
    proof {
        crate::input::lemma_upcoming_fits(*stream);
        lemma_run_end_bounds(u, 0, base as nat);
        assert(u.skip(0) =~= u);
        assert(u.take(0) =~= Seq::<CodePoint<U>>::empty());
        assert(t0 + displayed_codes(u.take(0)) =~= t0);
    }
    loop
        invariant
            stream.wf(),
            stream.filter() == old(stream).filter(),
            u == old(stream).upcoming(),
            t0 == codes_of(old(text)@),
            u.len() <= usize::MAX,
            i <= run_end(u, 0, base as nat) <= u.len(),
            run_end(u, i as int, base as nat) == run_end(u, 0, base as nat),
            stream.upcoming() == u.skip(i as int),
            codes_of(text@) == t0 + displayed_codes(u.take(i as int)),
        ensures
            i == run_end(u, 0, base as nat),
        decreases u.len() - i,
    {
        let next = match stream.peek_next() {
            Ok(c) => c,
            Err(_) => CodePoint::EOF,
        };
        proof {
            if i < u.len() {
                assert(u.skip(i as int)[0] == u[i as int]);
            }
        }
        if !digit_of(&next, base) {
            break;
        }
        proof {
            assert(u.skip(i as int).drop_first() =~= u.skip(i + 1));
            assert(u.take(i + 1).drop_last() =~= u.take(i as int));
            assert(u.take(i + 1).last() == u[i as int]);
            lemma_run_end_bounds(u, i + 1, base as nat);
        }
        let c = match stream.consume_next() {
            Ok(c) => c,
            Err(_) => CodePoint::EOF,
        };
        push_displayed(text, c);
        proof {
            assert(codes_of(text@) =~= t0 + displayed_codes(u.take(i + 1)));
        }
        i = i + 1;
    }
}

fn unit_code_is<U: CodePointInterface>(c: &CodePoint<U>, code: u32) -> (r: bool)
    ensures
        r == (c.unit_code() == Some(code)),
{
    match c.maybe_unit() {
        Some(ch) => ch as u32 == code,
        None => false,
    }
}

fn prefix_base_of<U: CodePointInterface>(c: &CodePoint<U>) -> (r: u32)
    ensures
        r as nat == prefix_base(*c),
{
    if unit_code_is(c, 0x78) {
        16
    } else if unit_code_is(c, 0x62) {
        2
    } else if unit_code_is(c, 0x6F) {
        8
    } else {
        0
    }
}

/// Reads `0x`, `0b` or `0o` and the digits of that base that follow.
fn consume_prefixed<U: CodePointInterface, F: ScanFilter<U>>(
    stream: &mut InputStream<U, F>,
    location: Location,
    base: u32,
) -> (r: IntegerOutput)
    requires
        old(stream).wf(),
        has_base_prefix(old(stream).upcoming()),
        base as nat == prefix_base(old(stream).upcoming()[1]),
    ensures
        final(stream).wf(),
        final(stream).filter() == old(stream).filter(),
        ({
            let u = old(stream).upcoming();
            let e = run_end(u, 2, base as nat);
            &&& r.location == location
            &&& r.integer.base() == base
            &&& codes_of(r.integer.text()) == displayed_codes(u.subrange(2, e))
            &&& final(stream).upcoming() == u.skip(e)
        }),
{
    let ghost u = stream.upcoming();
    proof {
        crate::input::lemma_upcoming_fits(*stream);
    }
    let _ = stream.consume_next();
    let _ = stream.consume_next();
    let mut text = String::new();
    proof {
        assert(u.drop_first().drop_first() =~= u.skip(2));
        lemma_run_end_shift(u, 2, 0, base as nat);
    }
    consume_run(stream, &mut text, base);
    proof {
        lemma_run_end_bounds(u, 2, base as nat);
        let e = run_end(u, 2, base as nat);
        assert(u.skip(2).skip(e - 2) =~= u.skip(e));
        assert(u.skip(2).take(e - 2) =~= u.subrange(2, e));
        assert(codes_of(Seq::<char>::empty()) =~= Seq::<u32>::empty());
        assert(Seq::<u32>::empty() + displayed_codes(u.subrange(2, e)) =~= displayed_codes(u.subrange(2, e)));
    }
    let integer = if base == 16 {
        Integer::Hexadecimal { hex: text }
    } else if base == 2 {
        Integer::Binary { bin: text }
    } else {
        Integer::Octal { oct: text }
    };
    IntegerOutput { integer, location }
}

/// Reads a `.` and the decimal digits that follow it, appending them to
/// `text`, which holds the decimal text of `u` up to position `s`.
fn consume_fraction<U: CodePointInterface, F: ScanFilter<U>>(
    stream: &mut InputStream<U, F>,
    text: &mut String,
    u: Ghost<Seq<CodePoint<U>>>,
    s: Ghost<int>,
)
    requires
        old(stream).wf(),
        0 <= s@ < u@.len(),
        u@[s@] is FULL_STOP,
        old(stream).upcoming() == u@.skip(s@),
        codes_of(old(text)@) == displayed_codes(u@.subrange(0, s@)),
    ensures
        final(stream).wf(),
        final(stream).filter() == old(stream).filter(),
        final(stream).upcoming() == u@.skip(run_end(u@, s@ + 1, 10)),
        codes_of(final(text)@) == displayed_codes(u@.subrange(0, run_end(u@, s@ + 1, 10))),
{
    let ghost u = u@;
    let ghost s = s@;
    let dot = match stream.consume_next() {
        Ok(c) => c,
        Err(_) => CodePoint::EOF,
    };
    push_displayed(text, dot);
    proof {
        assert(u.skip(s).drop_first() =~= u.skip(s + 1));
        assert(u.skip(s)[0] == u[s]);
        lemma_run_end_shift(u, s + 1, 0, 10);
        lemma_run_end_bounds(u, s + 1, 10);
        assert(u.subrange(0, s + 1).drop_last() =~= u.subrange(0, s));
        assert(u.subrange(0, s + 1).last() == u[s]);
    }
    consume_run(stream, text, 10);
    proof {
        let e2 = run_end(u, s + 1, 10);
        assert(u.skip(s + 1).skip(e2 - (s + 1)) =~= u.skip(e2));
        assert(u.skip(s + 1).take(e2 - (s + 1)) =~= u.subrange(s + 1, e2));
        lemma_displayed_concat(u.subrange(0, s + 1), u.subrange(s + 1, e2));
        assert(u.subrange(0, s + 1) + u.subrange(s + 1, e2) =~= u.subrange(0, e2));
    }
}

/// Reads decimal digits, and a fraction when a `.` and a digit follow them.
fn consume_decimal<U: CodePointInterface, F: ScanFilter<U>>(
    stream: &mut InputStream<U, F>,
    location: Location,
) -> (r: IntegerOutput)
    requires
        old(stream).wf(),
        old(stream).upcoming().len() >= 1,
        is_digit_of(old(stream).upcoming()[0], 10),
    ensures
        final(stream).wf(),
        final(stream).filter() == old(stream).filter(),
        ({
            let u = old(stream).upcoming();
            let e = run_end(u, 0, 10);
            let end = if e + 1 < u.len() && u[e] is FULL_STOP && is_digit_of(u[e + 1], 10) {
                run_end(u, e + 1, 10)
            } else {
                e
            };
            &&& r.location == location
            &&& r.integer.base() == 10
            &&& codes_of(r.integer.text()) == displayed_codes(u.subrange(0, end))
            &&& final(stream).upcoming() == u.skip(end)
        }),
{
    let ghost u = stream.upcoming();
    let mut text = String::new();
    proof {
        crate::input::lemma_upcoming_fits(*stream);
        assert(codes_of(text@) =~= Seq::<u32>::empty());
        lemma_run_end_bounds(u, 0, 10);
    }
    consume_run(stream, &mut text, 10);
    let ghost e1 = run_end(u, 0, 10);
    proof {
        assert(u.take(e1) =~= u.subrange(0, e1));
        assert(Seq::<u32>::empty() + displayed_codes(u.subrange(0, e1)) =~= displayed_codes(u.subrange(0, e1)));
    }
    let after = stream.peek_n_next(2);
    let d0 = window_at(&after, 0);
    let d1 = window_at(&after, 1);
    proof {
        assert(after@[0] == after@[0]);
        assert(after@[1] == after@[1]);
        if e1 < u.len() {
            assert(u.skip(e1)[0] == u[e1]);
        }
        if e1 + 1 < u.len() {
            assert(u.skip(e1)[1] == u[e1 + 1]);
        }
    }
    if matches!(d0, CodePoint::FULL_STOP) && digit_of(&d1, 10) {
        consume_fraction(stream, &mut text, Ghost(u), Ghost(e1));
    }
    IntegerOutput { integer: Integer::Decimal { dec: text }, location }
}

/// Reads a number that starts at `location`.
///
/// `0x`, `0b` and `0o` select base 16, 2 and 8, and must be followed by at
/// least one digit of that base. Otherwise the number is decimal: digits,
/// with a fraction when a `.` and a digit follow them, or a `.` followed by
/// digits. When no number starts here, nothing is consumed and the code
/// point that stops it is reported (`'\0'` for one without a character).
pub fn consume_numeric<U: CodePointInterface, F: ScanFilter<U>>(
    stream: &mut InputStream<U, F>,
    location: Location,
) -> (r: Result<IntegerOutput, IntegerParseError>)
    requires
        old(stream).wf(),
    ensures
        final(stream).wf(),
        final(stream).filter() == old(stream).filter(),
        ({
            let u = old(stream).upcoming();
            match numeric_span(u) {
                Some((b, s, e)) => {
                    &&& r is Ok
                    &&& r->Ok_0.location == location
                    &&& r->Ok_0.integer.base() == b
                    &&& codes_of(r->Ok_0.integer.text()) == displayed_codes(u.subrange(s, e))
                    &&& final(stream).upcoming() == u.skip(e)
                },
                None => {
                    &&& r is Err
                    &&& r->Err_0->IsNot_found as u32 == found_code(u, if has_base_prefix(u) { 2 } else { 0 })
                    &&& final(stream).upcoming() == u
                },
            }
        }),
{
    let ghost u = stream.upcoming();
    let ahead = stream.peek_n_next(3);
    let c0 = window_at(&ahead, 0);
    let c1 = window_at(&ahead, 1);
    let c2 = window_at(&ahead, 2);
    proof {
        assert(ahead@[0] == ahead@[0]);
        assert(ahead@[1] == ahead@[1]);
        assert(ahead@[2] == ahead@[2]);
    }
    let zero = unit_code_is(&c0, 0x30);
    let base = prefix_base_of(&c1);
    if zero && base != 0 {
        if !digit_of(&c2, base) {
            return Err(IntegerParseError::IsNot { found: found_char(c2) });
        }
        return Ok(consume_prefixed(stream, location, base));
    }
    if digit_of(&c0, 10) {
        return Ok(consume_decimal(stream, location));
    }
    if matches!(c0, CodePoint::FULL_STOP) && digit_of(&c1, 10) {
        let mut text = String::new();
        proof {
            crate::input::lemma_upcoming_fits(*stream);
            assert(u.skip(0) =~= u);
            assert(u.subrange(0, 0) =~= Seq::<CodePoint<U>>::empty());
            assert(codes_of(text@) =~= Seq::<u32>::empty());
            assert(displayed_codes(Seq::<CodePoint<U>>::empty()) =~= Seq::<u32>::empty());
        }
        consume_fraction(stream, &mut text, Ghost(u), Ghost(0));
        return Ok(IntegerOutput { integer: Integer::Decimal { dec: text }, location });
    }
    Err(IntegerParseError::IsNot { found: found_char(c0) })
}

/// Where the closing quote of a string whose body starts at `i` stands, or
/// why the string fails: the input (or an `EOF`) ends it first, or it holds
/// a code point with no character. A `\\` escapes the code point after it.
pub open spec fn string_scan<U: CodePointInterface>(u: Seq<CodePoint<U>>, i: int, start: Location) -> Result<
    int,
    StringParseError,
>
    decreases u.len() - i,
{
    if i < 0 || i >= u.len() || u[i] is EOF {
        Err(StringParseError::Unterminated { line: start.line, column: start.column })
    } else if u[i] is QUOTATION_MARK {
        Ok(i)
    } else if u[i] is REVERSE_SOLIDUS {
        if i + 1 >= u.len() || u[i + 1] is EOF {
            Err(StringParseError::Unterminated { line: start.line, column: start.column })
        } else if u[i + 1].unit_code() is None {
            Err(StringParseError::BadString)
        } else {
            string_scan(u, i + 2, start)
        }
    } else if u[i].unit_code() is None {
        Err(StringParseError::BadString)
    } else {
        string_scan(u, i + 1, start)
    }
}

/// The characters of a string whose body starts at `i`, escapes resolved.
pub open spec fn string_data<U: CodePointInterface>(u: Seq<CodePoint<U>>, i: int) -> Seq<u32>
    decreases u.len() - i,
{
    if i < 0 || i >= u.len() || u[i] is EOF || u[i] is QUOTATION_MARK {
        Seq::empty()
    } else if u[i] is REVERSE_SOLIDUS {
        if i + 1 < u.len() && !(u[i + 1] is EOF) && u[i + 1].unit_code() is Some {
            seq![u[i + 1].unit_code()->0] + string_data(u, i + 2)
        } else {
            Seq::empty()
        }
    } else if u[i].unit_code() is Some {
        seq![u[i].unit_code()->0] + string_data(u, i + 1)
    } else {
        Seq::empty()
    }
}

/// Reads a string literal that starts at `location`: a `"`, then characters
/// up to the closing `"`. The output's column advances by one for each
/// character of the string.
pub fn consume_string<U: CodePointInterface, F: ScanFilter<U>>(
    stream: &mut InputStream<U, F>,
    location: Location,
) -> (r: Result<StringOutput, StringParseError>)
    requires
        old(stream).wf(),
    ensures
        final(stream).wf(),
        final(stream).filter() == old(stream).filter(),
        ({
            let u = old(stream).upcoming();
            if u.len() == 0 || !(u[0] is QUOTATION_MARK) {
                &&& r is Err
                &&& r->Err_0 is IsNot
                &&& r->Err_0->IsNot_found as u32 == found_code(u, 0)
                &&& final(stream).upcoming() == u
            } else {
                match string_scan(u, 1, location) {
                    Ok(j) => {
                        &&& r is Ok
                        &&& codes_of(r->Ok_0.data@) == string_data(u, 1)
                        &&& r->Ok_0.location == (Location {
                            column: saturating(location.column + string_data(u, 1).len()),
                            ..location
                        })
                        &&& final(stream).upcoming() == u.skip(j + 1)
                    },
                    Err(e) => r == Err::<StringOutput, StringParseError>(e),
                }
            }
        }),
{
    let ghost u = stream.upcoming();
    proof {
        crate::input::lemma_upcoming_fits(*stream);
    }
    let first = match stream.peek_next() {
        Ok(c) => c,
        Err(_) => CodePoint::EOF,
    };
    if !matches!(first, CodePoint::QUOTATION_MARK) {
        return Err(StringParseError::IsNot { found: found_char(first) });
    }
    let _ = stream.consume_next();
    let mut output = StringOutput { data: String::new(), location };
    let mut i: usize = 1;
    proof {
        assert(u.drop_first() =~= u.skip(1));
        assert(codes_of(output.data@) =~= Seq::<u32>::empty());
        assert(codes_of(output.data@) + string_data(u, 1) =~= string_data(u, 1));
    }
    loop
        invariant
            stream.wf(),
            stream.filter() == old(stream).filter(),
            u == old(stream).upcoming(),
            u.len() <= usize::MAX,
            u.len() > 0 && u[0] is QUOTATION_MARK,
            1 <= i <= u.len(),
            string_scan(u, i as int, location) == string_scan(u, 1, location),
            codes_of(output.data@) + string_data(u, i as int) == string_data(u, 1),
            output.location == (Location {
                column: saturating(location.column + codes_of(output.data@).len()),
                ..location
            }),
            stream.upcoming() == u.skip(i as int),
        decreases u.len() - i,
    {
        let c = match stream.consume_next() {
            Ok(c) => c,
            Err(_) => CodePoint::EOF,
        };
        proof {
            if i < u.len() {
                assert(u.skip(i as int)[0] == u[i as int]);
                assert(u.skip(i as int).drop_first() =~= u.skip(i + 1));
            }
        }
        if matches!(c, CodePoint::EOF) {
            return Err(StringParseError::Unterminated { line: location.line, column: location.column });
        }
        if matches!(c, CodePoint::QUOTATION_MARK) {
            proof {
                assert(codes_of(output.data@) + Seq::<u32>::empty() =~= codes_of(output.data@));
            }
            return Ok(output);
        }
        let ghost before = codes_of(output.data@);
        if matches!(c, CodePoint::REVERSE_SOLIDUS) {
            let escaped = match stream.consume_next() {
                Ok(e) => e,
                Err(_) => CodePoint::EOF,
            };
            proof {
                if i + 1 < u.len() {
                    assert(u.skip(i + 1)[0] == u[i + 1]);
                    assert(u.skip(i + 1).drop_first() =~= u.skip(i + 2));
                }
            }
            if matches!(escaped, CodePoint::EOF) {
                return Err(StringParseError::Unterminated { line: location.line, column: location.column });
            }
            match escaped.maybe_unit() {
                Some(ch) => {
                    output.append(ch);
                    proof {
                        assert(codes_of(output.data@) =~= before.push(ch as u32));
                        assert(before.push(ch as u32) + string_data(u, i + 2) =~= before + string_data(u, i as int));
                    }
                },
                None => {
                    return Err(StringParseError::BadString);
                },
            }
            i = i + 2;
        } else {
            match c.maybe_unit() {
                Some(ch) => {
                    output.append(ch);
                    proof {
                        assert(codes_of(output.data@) =~= before.push(ch as u32));
                        assert(before.push(ch as u32) + string_data(u, i + 1) =~= before + string_data(u, i as int));
                    }
                },
                None => {
                    return Err(StringParseError::BadString);
                },
            }
            i = i + 1;
        }
    }
}

/// Whether `u` starts with the characters `word` and no identifier
/// character follows them.
pub open spec fn spells_word<U: CodePointInterface>(u: Seq<CodePoint<U>>, word: Seq<u32>) -> bool {
    &&& u.len() >= word.len()
    &&& forall|k: int| 0 <= k < word.len() ==> #[trigger] u[k].unit_code() == Some(word[k])
    &&& !(word.len() < u.len() && continues_ident(u[word.len() as int]))
}

/// Reads `true` or `false` at `location`; anything else gives `None` and
/// consumes nothing.
pub fn consume_boolean<U: CodePointInterface, F: ScanFilter<U>>(
    stream: &mut InputStream<U, F>,
    location: Location,
) -> (r: Option<BoolOutput>)
    requires
        old(stream).wf(),
    ensures
        final(stream).wf(),
        final(stream).filter() == old(stream).filter(),
        ({
            let u = old(stream).upcoming();
            if spells_word(u, seq![0x74u32, 0x72, 0x75, 0x65]) {
                r == Some(BoolOutput { value: Bool::True, location }) && final(stream).upcoming() == u.skip(4)
            } else if spells_word(u, seq![0x66u32, 0x61, 0x6C, 0x73, 0x65]) {
                r == Some(BoolOutput { value: Bool::False, location }) && final(stream).upcoming() == u.skip(5)
            } else {
                r is None && final(stream).upcoming() == u
            }
        }),
{
    let ghost u = stream.upcoming();
    let ahead = stream.peek_n_next(6);
    let c0 = window_at(&ahead, 0);
    let c1 = window_at(&ahead, 1);
    let c2 = window_at(&ahead, 2);
    let c3 = window_at(&ahead, 3);
    let c4 = window_at(&ahead, 4);
    let c5 = window_at(&ahead, 5);
    proof {
        assert(ahead@[0] == ahead@[0]);
        assert(ahead@[1] == ahead@[1]);
        assert(ahead@[2] == ahead@[2]);
        assert(ahead@[3] == ahead@[3]);
        assert(ahead@[4] == ahead@[4]);
        assert(ahead@[5] == ahead@[5]);
    }
    let is_true = unit_code_is(&c0, 0x74) && unit_code_is(&c1, 0x72) && unit_code_is(&c2, 0x75) && unit_code_is(
        &c3,
        0x65,
    ) && !c4.is_ident_after_start();
    let is_false = unit_code_is(&c0, 0x66) && unit_code_is(&c1, 0x61) && unit_code_is(&c2, 0x6C) && unit_code_is(
        &c3,
        0x73,
    ) && unit_code_is(&c4, 0x65) && !c5.is_ident_after_start();
    proof {
        let t = seq![0x74u32, 0x72, 0x75, 0x65];
        let f = seq![0x66u32, 0x61, 0x6C, 0x73, 0x65];
        if is_true {
            assert forall|k: int| 0 <= k < t.len() implies #[trigger] u[k].unit_code() == Some(t[k]) by {}
        }
        if spells_word(u, t) {
            assert(u[0].unit_code() == Some(t[0]));
            assert(u[1].unit_code() == Some(t[1]));
            assert(u[2].unit_code() == Some(t[2]));
            assert(u[3].unit_code() == Some(t[3]));
        }
        if is_false {
            assert forall|k: int| 0 <= k < f.len() implies #[trigger] u[k].unit_code() == Some(f[k]) by {}
        }
        if spells_word(u, f) {
            assert(u[0].unit_code() == Some(f[0]));
            assert(u[1].unit_code() == Some(f[1]));
            assert(u[2].unit_code() == Some(f[2]));
            assert(u[3].unit_code() == Some(f[3]));
            assert(u[4].unit_code() == Some(f[4]));
        }
    }
    if is_true {
        let mut k: usize = 0;
        while k < 4
            invariant
                stream.wf(),
                stream.filter() == old(stream).filter(),
                k <= 4,
                u.len() >= 4,
                stream.upcoming() == u.skip(k as int),
            decreases 4 - k,
        {
            let _ = stream.consume_next();
            proof {
                assert(u.skip(k as int).drop_first() =~= u.skip(k + 1));
            }
            k = k + 1;
        }
        return Some(BoolOutput { value: Bool::True, location });
    }
    if is_false {
        let mut k: usize = 0;
        while k < 5
            invariant
                stream.wf(),
                stream.filter() == old(stream).filter(),
                k <= 5,
                u.len() >= 5,
                stream.upcoming() == u.skip(k as int),
            decreases 5 - k,
        {
            let _ = stream.consume_next();
            proof {
                assert(u.skip(k as int).drop_first() =~= u.skip(k + 1));
            }
            k = k + 1;
        }
        return Some(BoolOutput { value: Bool::False, location });
    }
    None
}

} // verus!
