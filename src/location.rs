use vstd::prelude::*;
use vstd::string::*;

verus! {

/// A position in the source: 1-based line and column, and the number of code
/// points scanned so far. Every increment saturates.
#[derive(Debug, Clone, Copy, PartialEq, Eq)]
pub struct Location {
    pub line: usize,
    pub column: usize,
    pub total: usize,
}

pub open spec fn saturating(n: int) -> usize {
    if n > usize::MAX { usize::MAX } else { n as usize }
}

pub open spec fn digit_char(d: nat) -> char
    recommends
        d < 10,
{
    if d == 0 { '0' }
    else if d == 1 { '1' }
    else if d == 2 { '2' }
    else if d == 3 { '3' }
    else if d == 4 { '4' }
    else if d == 5 { '5' }
    else if d == 6 { '6' }
    else if d == 7 { '7' }
    else if d == 8 { '8' }
    else { '9' }
}

pub open spec fn is_digit_char(c: char) -> bool {
    '0' <= c <= '9'
}

pub open spec fn digit_value(c: char) -> nat {
    (c as u32 - '0' as u32) as nat
}

/// The decimal digits of `n`, most significant first, without leading zeros.
pub open spec fn decimal(n: nat) -> Seq<char>
    decreases n,
{
    if n < 10 {
        seq![digit_char(n)]
    } else {
        decimal(n / 10).push(digit_char(n % 10))
    }
}

/// The number that a sequence of decimal digits denotes.
pub open spec fn digits_value(t: Seq<char>) -> nat
    decreases t.len(),
{
    if t.len() == 0 {
        0
    } else {
        digits_value(t.drop_last()) * 10 + digit_value(t.last())
    }
}

pub open spec fn all_digits(t: Seq<char>) -> bool {
    forall|i: int| 0 <= i < t.len() ==> is_digit_char(#[trigger] t[i])
}

/// What `usize`'s text parser accepts: an optional `+`, then at least one
/// decimal digit, denoting a value that fits.
pub open spec fn parse_unsigned(t: Seq<char>) -> Option<usize> {
    let d = if t.len() > 0 && t[0] == '+' { t.drop_first() } else { t };
    if d.len() > 0 && all_digits(d) && digits_value(d) <= usize::MAX {
        Some(digits_value(d) as usize)
    } else {
        None
    }
}

/// The characters before the first `,`, without any `L` or `:`.
pub open spec fn line_field(s: Seq<char>) -> Seq<char>
    decreases s.len(),
{
    if s.len() == 0 || s[0] == ',' {
        Seq::empty()
    } else if s[0] == 'L' || s[0] == ':' {
        line_field(s.drop_first())
    } else {
        seq![s[0]] + line_field(s.drop_first())
    }
}

/// The characters after the first `,` (none if there is no `,`).
pub open spec fn after_comma(s: Seq<char>) -> Seq<char>
    decreases s.len(),
{
    if s.len() == 0 {
        Seq::empty()
    } else if s[0] == ',' {
        s.drop_first()
    } else {
        after_comma(s.drop_first())
    }
}

/// The characters of `s` without any `C` or `:`.
pub open spec fn column_field(s: Seq<char>) -> Seq<char>
    decreases s.len(),
{
    if s.len() == 0 {
        Seq::empty()
    } else if s[0] == 'C' || s[0] == ':' {
        column_field(s.drop_first())
    } else {
        seq![s[0]] + column_field(s.drop_first())
    }
}

/// The text form `L:{line},C:{column}`.
pub open spec fn location_text(line: nat, column: nat) -> Seq<char> {
    seq!['L', ':'] + decimal(line) + seq![',', 'C', ':'] + decimal(column)
}

pub const LINE_ERROR: &'static str = "not a valid line";

pub const COLUMN_ERROR: &'static str = "not a valid column";

impl Location {
    /// The start of a source: line 1, column 1, total 1.
    pub fn new() -> (r: Self)
        ensures
            r.line == 1 && r.column == 1 && r.total == 1,
    {
        Location { line: 1, column: 1, total: 1 }
    }

    pub fn increment_total(&mut self)
        ensures
            *final(self) == (Location { total: saturating(old(self).total + 1), ..*old(self) }),
    {
        self.increment_total_by(1);
    }

    pub fn increment_total_by(&mut self, n: usize)
        ensures
            *final(self) == (Location { total: saturating(old(self).total + n), ..*old(self) }),
    {
        self.total = self.total.saturating_add(n);
    }

    pub fn increment_line(&mut self)
        ensures
            *final(self) == (Location { line: saturating(old(self).line + 1), ..*old(self) }),
    {
        self.increment_line_by(1);
    }

    pub fn increment_line_by(&mut self, n: usize)
        ensures
            *final(self) == (Location { line: saturating(old(self).line + n), ..*old(self) }),
    {
        self.line = self.line.saturating_add(n);
    }

    pub fn increment_column(&mut self)
        ensures
            *final(self) == (Location { column: saturating(old(self).column + 1), ..*old(self) }),
    {
        self.increment_column_by(1);
    }

    pub fn increment_column_by(&mut self, n: usize)
        ensures
            *final(self) == (Location { column: saturating(old(self).column + n), ..*old(self) }),
    {
        self.column = self.column.saturating_add(n);
    }

    pub fn reset_column(&mut self)
        ensures
            *final(self) == (Location { column: 1, ..*old(self) }),
    {
        self.column = 1;
    }

    /// The text form `L:{line},C:{column}`.
    pub fn to_string(&self) -> (r: String)
        ensures
            r@ == location_text(self.line as nat, self.column as nat),
    {
        let mut s = String::new();
        push_char(&mut s, 'L');
        push_char(&mut s, ':');
        push_decimal(&mut s, self.line);
        push_char(&mut s, ',');
        push_char(&mut s, 'C');
        push_char(&mut s, ':');
        push_decimal(&mut s, self.column);
        proof {
            assert(s@ =~= location_text(self.line as nat, self.column as nat));
        }
        s
    }

    /// Reads the text form `L:{line},C:{column}`: the line is what stands
    /// before the first `,` and the column what follows it, each without its
    /// letter and colons. `total` is set to `line + column` (saturating), not
    /// to an absolute offset.
    pub fn from_str(text: &str) -> (r: Result<Location, &'static str>)
        ensures
            match (parse_unsigned(line_field(text@)), parse_unsigned(column_field(after_comma(text@)))) {
                (Some(l), Some(c)) => r == Ok::<Location, &'static str>(
                    Location { line: l, column: c, total: saturating(l + c) },
                ),
                (None, _) => r == Err::<Location, &'static str>(LINE_ERROR),
                (Some(_), None) => r == Err::<Location, &'static str>(COLUMN_ERROR),
            },
    {
        let n = text.unicode_len();
        let mut line: Vec<char> = Vec::new();
        let mut i: usize = 0;
        proof {
            assert(text@.skip(0) =~= text@);
            assert(line@ + line_field(text@) =~= line_field(text@));
        }
        let mut found_comma = false;
        while i < n && !found_comma
            invariant
                n == text@.len(),
                i <= n,
                !found_comma ==> line_field(text@) == line@ + line_field(text@.skip(i as int)),
                !found_comma ==> after_comma(text@) == after_comma(text@.skip(i as int)),
                found_comma ==> line_field(text@) == line@,
                found_comma ==> after_comma(text@) == text@.skip(i as int),
            decreases n - i + (if found_comma { 0int } else { 1int }),
        {
            let ch = text.get_char(i);
            proof {
                let t = text@.skip(i as int);
                assert(t[0] == ch);
                assert(t.drop_first() =~= text@.skip(i + 1));
            }
            if ch == ',' {
                found_comma = true;
                proof {
                    assert(line@ + Seq::<char>::empty() =~= line@);
                }
            } else if ch == 'L' || ch == ':' {
            } else {
                proof {
                    assert(line@.push(ch) + line_field(text@.skip(i + 1)) =~= line@ + (seq![ch]
                        + line_field(text@.skip(i + 1))));
                }
                line.push(ch);
            }
            i = i + 1;
        }
        proof {
            if !found_comma {
                assert(text@.skip(i as int) =~= Seq::<char>::empty());
                assert(line@ + Seq::<char>::empty() =~= line@);
            }
        }
        let ghost rest = text@.skip(i as int);
        let mut column: Vec<char> = Vec::new();
        while i < n
            invariant
                n == text@.len(),
                i <= n,
                column_field(after_comma(text@)) == column@ + column_field(text@.skip(i as int)),
            decreases n - i,
        {
            let ch = text.get_char(i);
            proof {
                let t = text@.skip(i as int);
                assert(t[0] == ch);
                assert(t.drop_first() =~= text@.skip(i + 1));
            }
            if ch == 'C' || ch == ':' {
            } else {
                proof {
                    assert(column@.push(ch) + column_field(text@.skip(i + 1)) =~= column@ + (seq![ch]
                        + column_field(text@.skip(i + 1))));
                }
                column.push(ch);
            }
            i = i + 1;
        }
        proof {
            assert(text@.skip(i as int) =~= Seq::<char>::empty());
            assert(column@ + Seq::<char>::empty() =~= column@);
        }
        let line_value = match parse_usize(&line) {
            Some(v) => v,
            None => {
                return Err(LINE_ERROR);
            },
        };
        let column_value = match parse_usize(&column) {
            Some(v) => v,
            None => {
                return Err(COLUMN_ERROR);
            },
        };
        Ok(Location { line: line_value, column: column_value, total: line_value.saturating_add(column_value) })
    }
}

/// A structure that holds a location and moves it on as it scans.
pub trait LocationInterface {
    /// The location held.
    spec fn location(&self) -> Location;

    /// Whether a location has been set.
    spec fn has_location(&self) -> bool;

    /// Sets the location.
    fn define_location(&mut self, location: Location)
        ensures
            final(self).has_location(),
            final(self).location() == location,
    ;

    /// Sets the location, unless one is set already.
    fn define_location_if_not_already_set(&mut self, location: Location)
        ensures
            final(self).has_location(),
            old(self).has_location() ==> final(self).location() == old(self).location(),
            !old(self).has_location() ==> final(self).location() == location,
    ;

    /// Counts `n` more scanned code points.
    fn increment_total_by(&mut self, n: usize)
        ensures
            final(self).has_location() == old(self).has_location(),
            final(self).location() == (Location {
                total: saturating(old(self).location().total + n),
                ..old(self).location()
            }),
    ;

    /// Moves `n` lines on.
    fn increment_line_by(&mut self, n: usize)
        ensures
            final(self).has_location() == old(self).has_location(),
            final(self).location() == (Location {
                line: saturating(old(self).location().line + n),
                ..old(self).location()
            }),
    ;

    /// Moves `n` columns on.
    fn increment_column_by(&mut self, n: usize)
        ensures
            final(self).has_location() == old(self).has_location(),
            final(self).location() == (Location {
                column: saturating(old(self).location().column + n),
                ..old(self).location()
            }),
    ;

    /// Goes back to the first column.
    fn reset_column(&mut self)
        ensures
            final(self).has_location() == old(self).has_location(),
            final(self).location() == (Location { column: 1, ..old(self).location() }),
    ;

    fn increment_total(&mut self)
        ensures
            final(self).has_location() == old(self).has_location(),
            final(self).location() == (Location {
                total: saturating(old(self).location().total + 1),
                ..old(self).location()
            }),
    {
        self.increment_total_by(1);
    }

    fn increment_line(&mut self)
        ensures
            final(self).has_location() == old(self).has_location(),
            final(self).location() == (Location {
                line: saturating(old(self).location().line + 1),
                ..old(self).location()
            }),
    {
        self.increment_line_by(1);
    }

    fn increment_column(&mut self)
        ensures
            final(self).has_location() == old(self).has_location(),
            final(self).location() == (Location {
                column: saturating(old(self).location().column + 1),
                ..old(self).location()
            }),
    {
        self.increment_column_by(1);
    }
}

impl LocationInterface for Location {
    open spec fn location(&self) -> Location {
        *self
    }

    /// A `Location` always holds one.
    open spec fn has_location(&self) -> bool {
        true
    }

    fn define_location(&mut self, location: Location) {
        *self = location;
    }

    fn define_location_if_not_already_set(&mut self, location: Location) {
    }

    fn increment_total_by(&mut self, n: usize) {
        Location::increment_total_by(self, n);
    }

    fn increment_line_by(&mut self, n: usize) {
        Location::increment_line_by(self, n);
    }

    fn increment_column_by(&mut self, n: usize) {
        Location::increment_column_by(self, n);
    }

    fn reset_column(&mut self) {
        Location::reset_column(self);
    }
}

impl Default for Location {
    fn default() -> (r: Self)
        ensures
            r.line == 1 && r.column == 1 && r.total == 1,
    {
        Location { line: 1, column: 1, total: 1 }
    }
}

impl core::str::FromStr for Location {
    type Err = &'static str;

    fn from_str(text: &str) -> Result<Location, &'static str> {
        Location::from_str(text)
    }
}

/// Relies on `String::push`: appends one character.
#[verifier::external_body]
pub(crate) fn push_char(s: &mut String, c: char)
    ensures
        final(s)@ == old(s)@.push(c),
{
    s.push(c);
}

fn digit_of(d: usize) -> (r: char)
    requires
        d < 10,
    ensures
        r == digit_char(d as nat),
{
    if d == 0 { '0' }
    else if d == 1 { '1' }
    else if d == 2 { '2' }
    else if d == 3 { '3' }
    else if d == 4 { '4' }
    else if d == 5 { '5' }
    else if d == 6 { '6' }
    else if d == 7 { '7' }
    else if d == 8 { '8' }
    else { '9' }
}

/// Appends the decimal digits of `n`.
fn push_decimal(s: &mut String, n: usize)
    ensures
        final(s)@ == old(s)@ + decimal(n as nat),
{
    // Digits are produced least significant first, then appended in reverse.
    let mut rev: Vec<char> = Vec::new();
    let mut m: usize = n;
    while m >= 10
        invariant
            decimal(n as nat) == decimal(m as nat) + rev@.reverse(),
        decreases m,
    {
        let c = digit_of(m % 10);
        proof {
            assert(decimal(m as nat) == decimal((m / 10) as nat).push(digit_char((m % 10) as nat)));
            assert(rev@.push(c).reverse() =~= seq![c] + rev@.reverse());
            assert(decimal(m as nat) + rev@.reverse() =~= decimal((m / 10) as nat) + rev@.push(c).reverse());
        }
        rev.push(c);
        m = m / 10;
    }
    let c = digit_of(m);
    proof {
        assert(rev@.push(c).reverse() =~= seq![c] + rev@.reverse());
        assert(decimal(m as nat) =~= seq![c]);
    }
    rev.push(c);
    let ghost start = s@;
    let mut j: usize = rev.len();
    while j > 0
        invariant
            j <= rev.len(),
            s@ == start + rev@.reverse().take(rev.len() - j),
            decimal(n as nat) =~= rev@.reverse(),
        decreases j,
    {
        j = j - 1;
        push_char(s, rev[j]);
        proof {
            let k = rev.len() - j;
            assert(rev@.reverse()[k - 1] == rev@[j as int]);
            assert(rev@.reverse().take(k) =~= rev@.reverse().take(k - 1).push(rev@[j as int]));
        }
    }
    proof {
        assert(rev@.reverse().take(rev.len() as int) =~= rev@.reverse());
    }
}

/// Reads a `usize` from its text form, as `usize`'s own parser does: an
/// optional `+`, then one or more decimal digits whose value fits.
pub fn parse_usize(t: &Vec<char>) -> (r: Option<usize>)
    ensures
        r == parse_unsigned(t@),
{
    let mut start: usize = 0;
    if t.len() > 0 && t[0] == '+' {
        start = 1;
    }
    let ghost d = if t@.len() > 0 && t@[0] == '+' { t@.drop_first() } else { t@ };
    proof {
        assert(d =~= t@.skip(start as int));
    }
    if start == t.len() {
        return None;
    }
    let mut value: usize = 0;
    let mut i: usize = start;
    while i < t.len()
        invariant
            start <= i <= t.len(),
            d == t@.skip(start as int),
            d == (if t@.len() > 0 && t@[0] == '+' { t@.drop_first() } else { t@ }),
            all_digits(t@.subrange(start as int, i as int)),
            value as nat == digits_value(t@.subrange(start as int, i as int)),
        decreases t.len() - i,
    {
        let c = t[i];
        proof {
            assert(t@.subrange(start as int, i + 1).drop_last() =~= t@.subrange(start as int, i as int));
        }
        if !('0' <= c && c <= '9') {
            proof {
                assert(d[i - start] == c);
                assert(!is_digit_char(d[i - start]));
                assert(!all_digits(d));
                assert(parse_unsigned(t@) is None);
            }
            return None;
        }
        let digit = (c as u32 - '0' as u32) as usize;
        if value > (usize::MAX - digit) / 10 {
            proof {
                assert(digits_value(t@.subrange(start as int, i + 1)) == value * 10 + digit);
                assert(value * 10 + digit > usize::MAX) by (nonlinear_arith)
                    requires
                        value > (usize::MAX - digit) / 10,
                        digit < 10,
                ;
                assert(t@.subrange(start as int, i + 1) =~= d.take((i + 1 - start) as int));
                lemma_prefix_value_bound(d, (i + 1 - start) as int);
                assert(parse_unsigned(t@) is None);
            }
            return None;
        }
        proof {
            assert(value * 10 + digit <= usize::MAX) by (nonlinear_arith)
                requires
                    value <= (usize::MAX - digit) / 10,
                    digit < 10,
            ;
        }
        value = value * 10 + digit;
        i = i + 1;
    }
    proof {
        assert(t@.subrange(start as int, i as int) =~= d);
    }
    Some(value)
}

/// The value of a digit sequence is at least the value of any of its prefixes.
proof fn lemma_prefix_value_bound(d: Seq<char>, k: int)
    requires
        0 <= k <= d.len(),
    ensures
        all_digits(d) ==> digits_value(d) >= digits_value(d.take(k)),
    decreases d.len(),
{
    if k < d.len() && all_digits(d) {
        lemma_prefix_value_bound(d.drop_last(), k);
        assert(d.drop_last().take(k) =~= d.take(k));
        assert(all_digits(d.drop_last()));
        assert(digits_value(d) >= digits_value(d.drop_last()));
    } else if k == d.len() {
        assert(d.take(k) =~= d);
    }
}

proof fn lemma_digit_char(k: nat)
    requires
        k < 10,
    ensures
        is_digit_char(digit_char(k)),
        digit_value(digit_char(k)) == k,
{
}

proof fn lemma_decimal_digits(n: nat)
    ensures
        decimal(n).len() >= 1,
        all_digits(decimal(n)),
        digits_value(decimal(n)) == n,
    decreases n,
{
    if n >= 10 {
        lemma_decimal_digits(n / 10);
        let d = decimal(n);
        assert(d.drop_last() =~= decimal(n / 10));
        lemma_digit_char(n % 10);
        assert(d.last() == digit_char(n % 10));
        assert(digits_value(d) == (n / 10) * 10 + n % 10);
        assert((n / 10) * 10 + n % 10 == n);
        assert forall|i: int| 0 <= i < d.len() implies is_digit_char(#[trigger] d[i]) by {
            if i < d.len() - 1 {
                assert(d[i] == decimal(n / 10)[i]);
            }
        }
    } else {
        lemma_digit_char(n);
        assert(decimal(n).drop_last() =~= Seq::<char>::empty());
        assert(digits_value(Seq::<char>::empty()) == 0);
        assert(decimal(n).last() == digit_char(n));
        assert(digits_value(decimal(n)) == 0 * 10 + digit_value(digit_char(n)));
    }
}

proof fn lemma_line_field_of_digits(d: Seq<char>, rest: Seq<char>)
    requires
        all_digits(d),
    ensures
        line_field(d + seq![','] + rest) == d,
        after_comma(d + seq![','] + rest) == rest,
    decreases d.len(),
{
    let s = d + seq![','] + rest;
    if d.len() == 0 {
        assert(s[0] == ',');
        assert(s.drop_first() =~= rest);
    } else {
        assert(is_digit_char(d[0]));
        assert(s[0] == d[0]);
        assert(s.drop_first() =~= d.drop_first() + seq![','] + rest);
        lemma_line_field_of_digits(d.drop_first(), rest);
        assert(seq![d[0]] + d.drop_first() =~= d);
    }
}

proof fn lemma_column_field_of_digits(d: Seq<char>)
    requires
        all_digits(d),
    ensures
        column_field(d) == d,
    decreases d.len(),
{
    if d.len() > 0 {
        assert(is_digit_char(d[0]));
        lemma_column_field_of_digits(d.drop_first());
        assert(seq![d[0]] + d.drop_first() =~= d);
    }
}

proof fn lemma_parse_decimal(n: nat)
    requires
        n <= usize::MAX,
    ensures
        parse_unsigned(decimal(n)) == Some(n as usize),
{
    lemma_decimal_digits(n);
    assert(is_digit_char(decimal(n)[0]));
}

/// Reading the text form of a location gives back its line and its column.
/// (Its `total` is then recomputed as `line + column`.)
pub proof fn lemma_location_text_round_trip(line: usize, column: usize)
    ensures
        parse_unsigned(line_field(location_text(line as nat, column as nat))) == Some(line),
        parse_unsigned(column_field(after_comma(location_text(line as nat, column as nat)))) == Some(column),
{
    let dl = decimal(line as nat);
    let dc = decimal(column as nat);
    let s = location_text(line as nat, column as nat);
    lemma_decimal_digits(line as nat);
    lemma_decimal_digits(column as nat);
    let tail = seq!['C', ':'] + dc;
    let body = dl + seq![','] + tail;
    assert(s =~= seq!['L', ':'] + body);
    assert(s.drop_first() =~= seq![':'] + body);
    assert(s.drop_first().drop_first() =~= body);
    lemma_line_field_of_digits(dl, tail);
    assert(line_field(s) == line_field(s.drop_first()));
    assert(line_field(s.drop_first()) == line_field(body));
    assert(after_comma(s) == after_comma(s.drop_first()));
    assert(after_comma(s.drop_first()) == after_comma(body));
    assert(tail.drop_first() =~= seq![':'] + dc);
    assert(tail.drop_first().drop_first() =~= dc);
    lemma_column_field_of_digits(dc);
    assert(tail[0] == 'C');
    assert(tail.drop_first()[0] == ':');
    assert(column_field(tail) == column_field(tail.drop_first()));
    assert(column_field(tail.drop_first()) == column_field(dc));
    lemma_parse_decimal(line as nat);
    lemma_parse_decimal(column as nat);
}

} // verus!
