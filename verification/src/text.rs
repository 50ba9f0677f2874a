//! Text helpers: comparing, joining, and reading and writing whole numbers.

use vstd::prelude::*;
use vstd::string::*;

verus! {

/// `String::push` of std appends one character at the end of the string.
pub assume_specification[ String::push ](s: &mut String, c: char)
    ensures
        final(s)@ == old(s)@.push(c),
;

/// Whether two strings hold the same characters.
pub fn str_eq(a: &str, b: &str) -> (r: bool)
    ensures
        r == (a@ == b@),
{
    let x: &[u8] = a.as_bytes();
    let y: &[u8] = b.as_bytes();
    proof {
        vstd::utf8::encode_utf8_decode_utf8(a@);
        vstd::utf8::encode_utf8_decode_utf8(b@);
    }
    if x.len() != y.len() {
        return false;
    }
    let mut i: usize = 0;
    while i < x.len()
        invariant
            i <= x.len(),
            x.len() == y.len(),
            x@ == a.spec_bytes(),
            y@ == b.spec_bytes(),
            forall|j: int| 0 <= j < i ==> x@[j] == y@[j],
        decreases x.len() - i,
    {
        if x[i] != y[i] {
            return false;
        }
        i += 1;
    }
    assert(x@ =~= y@);
    true
}

/// The characters of a string, in order.
pub fn chars_of(s: &str) -> (r: Vec<char>)
    ensures
        r@ == s@,
{
    let mut out: Vec<char> = Vec::new();
    for c in it: s.chars()
        invariant
            it.seq() == s@,
            out@ == s@.take(it.index()),
    {
        out.push(c);
        assert(s@.take(it.index() + 1) =~= s@.take(it.index()).push(c));
    }
    assert(s@.take(s@.len() as int) =~= s@);
    out
}

/// The string of the given characters.
pub fn string_of(chars: &Vec<char>) -> (r: String)
    ensures
        r@ == chars@,
{
    let mut out: String = String::new();
    let mut i: usize = 0;
    while i < chars.len()
        invariant
            i <= chars.len(),
            out@ == chars@.take(i as int),
        decreases chars.len() - i,
    {
        out.push(chars[i]);
        i += 1;
        assert(chars@.take(i as int) =~= chars@.take(i - 1).push(chars@[i - 1]));
    }
    assert(chars@.take(i as int) =~= chars@);
    out
}

/// The concatenation of three strings.
pub fn join3(a: &str, b: &str, c: &str) -> (r: String)
    ensures
        r@ == a@ + b@ + c@,
{
    let mut out: String = String::new();
    out.append(a);
    out.append(b);
    out.append(c);
    assert(out@ =~= a@ + b@ + c@);
    out
}

/// The decimal digit for a value below ten.
pub open spec fn digit_char(d: nat) -> char {
    (48 + d) as char
}

/// The decimal notation of a natural number, without leading zeros.
pub open spec fn decimal_text(n: nat) -> Seq<char>
    decreases n,
{
    if n < 10 {
        seq![digit_char(n)]
    } else {
        decimal_text(n / 10).push(digit_char(n % 10))
    }
}

/// Writes `n` in decimal notation.
pub fn decimal(n: u64) -> (r: String)
    ensures
        r@ == decimal_text(n as nat),
    decreases n,
{
    let d: u8 = (n % 10) as u8;
    let c: char = (48 + d) as char;
    let mut s: String = if n < 10 {
        String::new()
    } else {
        decimal(n / 10)
    };
    s.push(c);
    assert(s@ =~= decimal_text(n as nat));
    s
}

/// Why a text is not a whole number in range.
#[derive(Debug, Clone, Copy, PartialEq, Eq, Structural)]
pub enum IntParseError {
    /// The text is empty.
    Empty,
    /// A character is not a decimal digit.
    InvalidDigit,
    /// The number is above the largest accepted value.
    PosOverflow,
}

impl IntParseError {
    /// A sentence fragment that names the problem.
    pub fn message(self) -> (r: &'static str)
        ensures
            r@ == self.text(),
    {
        match self {
            IntParseError::Empty => "cannot parse integer from empty string",
            IntParseError::InvalidDigit => "invalid digit found in string",
            IntParseError::PosOverflow => "number too large to fit in target type",
        }
    }

    pub open spec fn text(self) -> Seq<char> {
        match self {
            IntParseError::Empty => "cannot parse integer from empty string"@,
            IntParseError::InvalidDigit => "invalid digit found in string"@,
            IntParseError::PosOverflow => "number too large to fit in target type"@,
        }
    }
}

pub open spec fn is_digit(c: char) -> bool {
    '0' <= c <= '9'
}

/// The index just behind the run of digits that starts at `i`.
pub open spec fn digit_run(s: Seq<char>, i: int) -> int
    decreases s.len() - i,
{
    if 0 <= i < s.len() && is_digit(s[i]) {
        digit_run(s, i + 1)
    } else {
        i
    }
}

/// The number that the first `n` characters of `s` write in decimal notation.
pub open spec fn run_value(s: Seq<char>, n: int) -> nat
    decreases n,
{
    if n <= 0 {
        0
    } else {
        run_value(s, n - 1) * 10 + (s[n - 1] as nat - 48) as nat
    }
}

/// The text behind one leading plus sign; a lone sign is kept.
pub open spec fn unsigned_body(s: Seq<char>) -> Seq<char> {
    if s.len() > 1 && s[0] == '+' {
        s.skip(1)
    } else {
        s
    }
}

/// What a decimal text stands for: an optional plus sign followed by digits
/// only, at most `max`. The first digit run decides whether the number is too
/// large, before any later character is looked at.
pub open spec fn unsigned_value(s: Seq<char>, max: nat) -> Result<nat, IntParseError> {
    let body = unsigned_body(s);
    let n = digit_run(body, 0);
    if s.len() == 0 {
        Err(IntParseError::Empty)
    } else if run_value(body, n) > max {
        Err(IntParseError::PosOverflow)
    } else if n < body.len() {
        Err(IntParseError::InvalidDigit)
    } else {
        Ok(run_value(body, n))
    }
}

proof fn lemma_run_value_grows(s: Seq<char>, m: int, n: int)
    requires
        0 <= m <= n <= s.len(),
    ensures
        run_value(s, m) <= run_value(s, n),
    decreases n - m,
{
    if m < n {
        lemma_run_value_grows(s, m, n - 1);
    }
}

proof fn lemma_digit_run_bounds(s: Seq<char>, i: int)
    requires
        0 <= i <= s.len(),
    ensures
        i <= digit_run(s, i) <= s.len(),
    decreases s.len() - i,
{
    if i < s.len() && is_digit(s[i]) {
        lemma_digit_run_bounds(s, i + 1);
    }
}

/// Reads a whole number between 0 and `max` from its decimal notation.
pub fn parse_unsigned(s: &str, max: u64) -> (r: Result<u64, IntParseError>)
    ensures
        match (r, unsigned_value(s@, max as nat)) {
            (Ok(v), Ok(w)) => v as nat == w,
            (Err(e), Err(f)) => e == f,
            _ => false,
        },
{
    let cs: Vec<char> = chars_of(s);
    if cs.len() == 0 {
        return Err(IntParseError::Empty);
    }
    let start: usize = if cs.len() > 1 && cs[0] == '+' {
        1
    } else {
        0
    };
    let ghost body = unsigned_body(s@);
    let mut i: usize = start;
    let mut acc: u64 = 0;
    while i < cs.len()
        invariant
            start <= i <= cs.len(),
            start <= 1,
            cs@ == s@,
            s@.len() > 0,
            body == unsigned_body(s@),
            body.len() == cs.len() - start,
            forall|j: int| 0 <= j < body.len() ==> body[j] == cs@[j + start],
            digit_run(body, 0) == digit_run(body, i - start),
            acc as nat == run_value(body, i - start),
            acc <= max,
        decreases cs.len() - i,
    {
        let c: char = cs[i];
        assert(body[i - start] == c);
        proof {
            lemma_digit_run_bounds(body, i - start);
        }
        if !('0' <= c && c <= '9') {
            return Err(IntParseError::InvalidDigit);
        }
        let d: u128 = (c as u32 - 48) as u128;
        let next: u128 = acc as u128 * 10 + d;
        proof {
            lemma_digit_run_bounds(body, i - start + 1);
            lemma_run_value_grows(body, i - start + 1, digit_run(body, 0));
        }
        if next > max as u128 {
            return Err(IntParseError::PosOverflow);
        }
        acc = next as u64;
        i += 1;
    }
    Ok(acc)
}

proof fn lemma_decimal_digits(n: nat)
    ensures
        decimal_text(n).len() > 0,
        forall|i: int| 0 <= i < decimal_text(n).len() ==> is_digit(#[trigger] decimal_text(n)[i]),
    decreases n,
{
    if n >= 10 {
        lemma_decimal_digits(n / 10);
    }
}

proof fn lemma_run_value_prefix(s: Seq<char>, t: Seq<char>, n: int)
    requires
        0 <= n <= s.len(),
        n <= t.len(),
        forall|i: int| 0 <= i < n ==> s[i] == t[i],
    ensures
        run_value(s, n) == run_value(t, n),
    decreases n,
{
    if n > 0 {
        lemma_run_value_prefix(s, t, n - 1);
    }
}

proof fn lemma_decimal_value(n: nat)
    ensures
        run_value(decimal_text(n), decimal_text(n).len() as int) == n,
    decreases n,
{
    let s = decimal_text(n);
    if n < 10 {
        reveal_with_fuel(run_value, 2);
    } else {
        let t = decimal_text(n / 10);
        lemma_decimal_value(n / 10);
        lemma_run_value_prefix(s, t, t.len() as int);
    }
}

proof fn lemma_digit_run_all(s: Seq<char>, i: int)
    requires
        0 <= i <= s.len(),
        forall|j: int| 0 <= j < s.len() ==> is_digit(#[trigger] s[j]),
    ensures
        digit_run(s, i) == s.len(),
    decreases s.len() - i,
{
    if i < s.len() {
        lemma_digit_run_all(s, i + 1);
    }
}

/// A number is read back from its decimal notation.
pub proof fn decimal_reads_back(n: nat, max: nat)
    requires
        n <= max,
    ensures
        unsigned_value(decimal_text(n), max) == Ok::<nat, IntParseError>(n),
{
    let s = decimal_text(n);
    lemma_decimal_digits(n);
    lemma_decimal_value(n);
    assert(is_digit(s[0]));
    assert(unsigned_body(s) == s);
    lemma_digit_run_all(s, 0);
}

/// The number that a row of decimal digits writes, the last of them for the ones.
pub open spec fn number_of(digits: Seq<char>) -> nat
    decreases digits.len(),
{
    if digits.len() == 0 {
        0
    } else {
        10 * number_of(digits.drop_last()) + (digits.last() as nat - '0' as nat) as nat
    }
}

/// Whether a text is a row of decimal digits, at least one.
pub open spec fn is_number(s: Seq<char>) -> bool {
    s.len() > 0 && forall|i: int| 0 <= i < s.len() ==> '0' <= #[trigger] s[i] <= '9'
}

/// Whether a text is a row of decimal digits, with at most one plus sign in front.
pub open spec fn reads_as_number(s: Seq<char>) -> bool {
    is_number(s) || (s.len() > 1 && s[0] == '+' && is_number(s.skip(1)))
}

pub(crate) proof fn lemma_no_value(s: Seq<char>, max: nat)
    requires
        !reads_as_number(s),
    ensures
        unsigned_value(s, max) is Err,
{
    let body = unsigned_body(s);
    let n = digit_run(body, 0);
    lemma_digit_run_bounds(body, 0);
    if unsigned_value(s, max) is Ok {
        assert forall|i: int| 0 <= i < body.len() implies '0' <= #[trigger] body[i] <= '9' by {
            lemma_in_run(body, 0, i);
        }
    }
}

pub(crate) proof fn lemma_number_of_run(s: Seq<char>, n: int)
    requires
        0 <= n <= s.len(),
    ensures
        run_value(s, n) == number_of(s.take(n)),
    decreases n,
{
    if n > 0 {
        lemma_number_of_run(s, n - 1);
        assert(s.take(n).drop_last() =~= s.take(n - 1));
    }
}

/// The digits at the beginning of a text end where the first other character stands.
pub(crate) proof fn lemma_digits_then(digits: Seq<char>, rest: Seq<char>, i: int)
    requires
        is_number(digits) || digits.len() == 0,
        rest.len() == 0 || !('0' <= rest[0] <= '9'),
        0 <= i <= digits.len(),
    ensures
        digit_run(digits + rest, i) == digits.len(),
        run_value(digits + rest, digits.len() as int) == number_of(digits),
    decreases digits.len() - i,
{
    let s = digits + rest;
    lemma_number_of_run(s, digits.len() as int);
    assert(s.take(digits.len() as int) =~= digits);
    if i < digits.len() {
        assert(s[i] == digits[i]);
        lemma_digits_then(digits, rest, i + 1);
    } else if rest.len() > 0 {
        assert(s[i] == rest[0]);
    }
}

pub(crate) proof fn lemma_decimal_number(n: u64)
    ensures
        is_number(decimal_text(n as nat)),
        number_of(decimal_text(n as nat)) == n,
{
    let s = decimal_text(n as nat);
    lemma_decimal_digits(n as nat);
    lemma_decimal_value(n as nat);
    lemma_number_of_run(s, s.len() as int);
    assert(s.take(s.len() as int) =~= s);
    assert forall|i: int| 0 <= i < s.len() implies '0' <= #[trigger] s[i] <= '9' by {
        assert(is_digit(s[i]));
    }
}

/// A number is written in decimal digits that stand for it, without a zero in front.
pub proof fn a_number_is_written_in_digits(n: u64, r: String)
    requires
        call_ensures(decimal, (n,), r),
    ensures
        is_number(r@),
        number_of(r@) == n,
        r@.len() > 1 ==> r@[0] != '0',
{
    lemma_decimal_number(n);
    lemma_no_leading_zero(n as nat);
}

proof fn lemma_no_leading_zero(n: nat)
    ensures
        decimal_text(n).len() > 0,
        n > 0 ==> decimal_text(n)[0] != '0',
        n == 0 ==> decimal_text(n).len() == 1,
    decreases n,
{
    if n >= 10 {
        lemma_no_leading_zero(n / 10);
    }
}

/// A row of digits is read as the number that it writes, with a plus sign in front or
/// without, and refused where the number is above the largest accepted one.
pub proof fn a_number_is_read_from_its_digits(
    s: &str,
    max: u64,
    r: Result<u64, IntParseError>,
    digits: Seq<char>,
)
    requires
        is_number(digits),
        s@ == digits || s@ == seq!['+'] + digits,
        call_ensures(parse_unsigned, (s, max), r),
    ensures
        number_of(digits) <= max ==> r is Ok && r->Ok_0 == number_of(digits),
        number_of(digits) > max ==> r == Err::<u64, IntParseError>(IntParseError::PosOverflow),
{
    assert('0' <= digits[0] <= '9');
    if s@ == seq!['+'] + digits {
        assert(s@[0] == '+');
        assert(s@.skip(1) =~= digits);
    } else {
        assert(s@[0] != '+');
    }
    assert(unsigned_body(s@) == digits);
    assert(digits + Seq::<char>::empty() =~= digits);
    lemma_digits_then(digits, Seq::empty(), 0);
}

/// Nothing but a row of digits, with at most one plus sign in front, is read as a number.
pub proof fn only_digits_are_a_number(s: &str, max: u64, r: Result<u64, IntParseError>)
    requires
        call_ensures(parse_unsigned, (s, max), r),
    ensures
        r is Ok ==> reads_as_number(s@),
        s@.len() == 0 ==> r == Err::<u64, IntParseError>(IntParseError::Empty),
        s@.len() > 0 && s@[0] != '+' && !('0' <= s@[0] <= '9') ==> r == Err::<u64, IntParseError>(
            IntParseError::InvalidDigit,
        ),
{
    if !reads_as_number(s@) {
        lemma_no_value(s@, max as nat);
    }
}

proof fn lemma_in_run(s: Seq<char>, from: int, i: int)
    requires
        0 <= from <= i < digit_run(s, from),
    ensures
        is_digit(s[i]),
    decreases i - from,
{
    if from < i {
        lemma_in_run(s, from + 1, i);
    }
}

} // verus!
