//! Decimal text: rendering integers as strings and parsing unsigned numbers,
//! with the same observable behaviour as the standard library's `parse`.

use vstd::prelude::*;

verus! {

/// The decimal digit character for `d` (meaningful for `0 <= d < 10`).
pub open spec fn dec_digit(d: int) -> char
    recommends
        0 <= d < 10,
{
    if d == 0 { '0' } else if d == 1 { '1' } else if d == 2 { '2' } else if d == 3 { '3' }
    else if d == 4 { '4' } else if d == 5 { '5' } else if d == 6 { '6' } else if d == 7 { '7' }
    else if d == 8 { '8' } else { '9' }
}

/// The decimal rendering of a natural number, most significant digit first.
pub open spec fn dec_seq(n: nat) -> Seq<char>
    decreases n,
{
    if n < 10 {
        seq![dec_digit(n as int)]
    } else {
        dec_seq(n / 10).push(dec_digit((n % 10) as int))
    }
}

/// The decimal rendering of an integer, with a leading minus sign when
/// negative.
pub open spec fn dec_int_seq(v: int) -> Seq<char> {
    if v < 0 {
        seq!['-'] + dec_seq((-v) as nat)
    } else {
        dec_seq(v as nat)
    }
}

/// The one-character string for a decimal digit.
fn digit_str(d: u64) -> (r: &'static str)
    requires
        d < 10,
    ensures
        r@ =~= seq![dec_digit(d as int)],
{
    proof {
        reveal_strlit("0");
        reveal_strlit("1");
        reveal_strlit("2");
        reveal_strlit("3");
        reveal_strlit("4");
        reveal_strlit("5");
        reveal_strlit("6");
        reveal_strlit("7");
        reveal_strlit("8");
        reveal_strlit("9");
    }
    if d == 0 { "0" } else if d == 1 { "1" } else if d == 2 { "2" } else if d == 3 { "3" }
    else if d == 4 { "4" } else if d == 5 { "5" } else if d == 6 { "6" } else if d == 7 { "7" }
    else if d == 8 { "8" } else { "9" }
}

/// Render an unsigned number in decimal.
pub fn u64_to_string(n: u64) -> (s: String)
    ensures
        s@ == dec_seq(n as nat),
    decreases n,
{
    if n < 10 {
        digit_str(n).to_owned()
    } else {
        let mut s = u64_to_string(n / 10);
        s.append(digit_str(n % 10));
        s
    }
}

/// Render a signed number in decimal.
pub fn i64_to_string(v: i64) -> (s: String)
    ensures
        s@ == dec_int_seq(v as int),
{
    if v < 0 {
        let magnitude = -(v as i128);
        let mut s: String = "-".to_owned();
        proof {
            reveal_strlit("-");
        }
        s.append(u64_to_string(magnitude as u64).as_str());
        proof {
            assert(s@ =~= dec_int_seq(v as int));
        }
        s
    } else {
        u64_to_string(v as u64)
    }
}

/// A decimal digit character.
pub open spec fn is_digit(c: char) -> bool {
    ('0' as u32) <= (c as u32) && (c as u32) <= ('9' as u32)
}

/// The numeric value of a digit character.
pub open spec fn digit_val(c: char) -> int {
    (c as u32) - ('0' as u32)
}

/// The number denoted by a digit string, read most significant digit first.
pub open spec fn str_num(s: Seq<char>) -> nat
    decreases s.len(),
{
    if s.len() == 0 {
        0
    } else {
        (str_num(s.drop_last()) * 10 + if is_digit(s.last()) {
            digit_val(s.last())
        } else {
            0
        }) as nat
    }
}

/// Every character is a decimal digit.
pub open spec fn all_digits(s: Seq<char>) -> bool {
    forall|i: int| 0 <= i < s.len() ==> is_digit(#[trigger] s[i])
}

/// The length of the longest digit-only prefix.
pub open spec fn digit_prefix_len(s: Seq<char>) -> int
    decreases s.len(),
{
    if s.len() == 0 || !is_digit(s[0]) {
        0
    } else {
        1 + digit_prefix_len(s.drop_first())
    }
}

/// Why a string failed to parse as a number, mirroring the standard
/// library's error cases for unsigned integers.
#[derive(Clone, Copy, Debug, PartialEq, Eq, Structural)]
pub enum ParseNumError {
    /// The input was empty.
    Empty,
    /// A character other than a decimal digit was found.
    InvalidDigit,
    /// The digits denote a number too large for the target type.
    Overflow,
}

/// The text of a parse failure, as the standard library words it.
pub open spec fn parse_err_text(e: ParseNumError) -> Seq<char> {
    match e {
        ParseNumError::Empty => "cannot parse integer from empty string"@,
        ParseNumError::InvalidDigit => "invalid digit found in string"@,
        ParseNumError::Overflow => "number too large to fit in target type"@,
    }
}

impl ParseNumError {
    /// The failure's message text.
    pub fn message(&self) -> (r: &'static str)
        ensures
            r@ == parse_err_text(*self),
    {
        match self {
            ParseNumError::Empty => "cannot parse integer from empty string",
            ParseNumError::InvalidDigit => "invalid digit found in string",
            ParseNumError::Overflow => "number too large to fit in target type",
        }
    }
}

/// The length of the optional leading plus sign an unsigned parse accepts.
pub open spec fn sign_len(s: Seq<char>) -> int {
    if s.len() > 0 && s[0] == '+' {
        1
    } else {
        0
    }
}

/// The digits of the number: the input without its optional plus sign.
pub open spec fn num_body(s: Seq<char>) -> Seq<char> {
    s.skip(sign_len(s))
}

/// Whether a string parses as an unsigned 64-bit number: an optional plus
/// sign, then at least one digit, denoting a value in range.
pub open spec fn u64_parse_ok(s: Seq<char>) -> bool {
    s.len() > sign_len(s) && all_digits(num_body(s)) && str_num(num_body(s)) <= u64::MAX
}

/// The message a failed parse produces, by the case that failed.
pub open spec fn parse_fail_text(s: Seq<char>) -> Seq<char> {
    if s.len() == 0 {
        parse_err_text(ParseNumError::Empty)
    } else if s.len() > sign_len(s) && str_num(num_body(s).take(digit_prefix_len(num_body(s))))
        > u64::MAX {
        parse_err_text(ParseNumError::Overflow)
    } else {
        parse_err_text(ParseNumError::InvalidDigit)
    }
}

/// The first `i` characters of `s` are digits and `s[i]` (if any) is not:
/// then `i` is the digit prefix length.
proof fn lemma_digit_prefix_at(s: Seq<char>, i: int)
    requires
        0 <= i <= s.len(),
        forall|j: int| 0 <= j < i ==> is_digit(#[trigger] s[j]),
        i < s.len() ==> !is_digit(s[i]),
    ensures
        digit_prefix_len(s) == i,
    decreases s.len(),
{
    if s.len() == 0 {
    } else if i == 0 {
    } else {
        lemma_digit_prefix_at(s.drop_first(), i - 1);
    }
}

/// A digit string's value only grows as more digits are read.
proof fn lemma_str_num_monotone(s: Seq<char>, j: int, k: int)
    requires
        0 <= j <= k <= s.len(),
    ensures
        str_num(s.take(j)) <= str_num(s.take(k)),
    decreases k - j,
{
    if j < k {
        lemma_str_num_monotone(s, j, k - 1);
        assert(s.take(k).drop_last() =~= s.take(k - 1));
        assert(str_num(s.take(k)) >= str_num(s.take(k - 1)) * 10);
    }
}

/// Parse an unsigned decimal number - an optional leading plus sign, then
/// digits - reporting the same failure the standard library's
/// `str::parse::<u64>` would.
pub fn parse_u64(s: &str) -> (r: Result<u64, ParseNumError>)
    ensures
        r matches Ok(v) <==> u64_parse_ok(s@),
        r matches Ok(v) ==> v == str_num(num_body(s@)),
        r == Err::<u64, ParseNumError>(ParseNumError::Empty) <==> s@.len() == 0,
        r == Err::<u64, ParseNumError>(ParseNumError::Overflow) <==> (s@.len() > sign_len(s@)
            && str_num(num_body(s@).take(digit_prefix_len(num_body(s@)))) > u64::MAX),
        r == Err::<u64, ParseNumError>(ParseNumError::InvalidDigit) <==> (s@.len() > 0 && (
        s@.len() == sign_len(s@) || (digit_prefix_len(num_body(s@)) < num_body(s@).len()
            && str_num(num_body(s@).take(digit_prefix_len(num_body(s@)))) <= u64::MAX))),
{
    let n = s.unicode_len();
    if n == 0 {
        return Err(ParseNumError::Empty);
    }
    let start: usize = if s.get_char(0) == '+' {
        1
    } else {
        0
    };
    let ghost body = num_body(s@);
    proof {
        assert(start == sign_len(s@));
        assert(body == s@.skip(start as int));
        assert(forall|j: int| 0 <= j < body.len() ==> #[trigger] body[j] == s@[start + j]);
    }
    if start == n {
        // A bare sign carries no digits.
        return Err(ParseNumError::InvalidDigit);
    }
    let mut acc: u64 = 0;
    let mut i: usize = start;
    while i < n
        invariant
            0 < n == s@.len(),
            start == sign_len(s@),
            start < n,
            start <= i <= n,
            body == num_body(s@),
            body.len() == n - start,
            forall|j: int| 0 <= j < body.len() ==> #[trigger] body[j] == s@[start + j],
            forall|j: int| 0 <= j < i - start ==> is_digit(#[trigger] body[j]),
            acc == str_num(body.take(i - start)),
        decreases n - i,
    {
        let c = s.get_char(i);
        let u = c as u32;
        if !(('0' as u32) <= u && u <= ('9' as u32)) {
            proof {
                assert(!is_digit(body[i - start]));
                lemma_digit_prefix_at(body, i - start);
            }
            return Err(ParseNumError::InvalidDigit);
        }
        let d = (u - ('0' as u32)) as u64;
        let wide = (acc as u128) * 10 + (d as u128);
        proof {
            assert(body.take(i - start + 1).drop_last() =~= body.take(i - start));
            assert(body.take(i - start + 1).last() == body[i - start]);
            assert(body[i - start] == s@[i as int]);
        }
        if wide > u64::MAX as u128 {
            proof {
                assert(forall|j: int| 0 <= j < i - start + 1 ==> is_digit(#[trigger] body[j]));
                lemma_digit_prefix_ext(body, i - start + 1);
                lemma_str_num_monotone(body, i - start + 1, digit_prefix_len(body));
                if all_digits(body) {
                    lemma_digit_prefix_at(body, body.len() as int);
                    assert(body.take(body.len() as int) =~= body);
                }
            }
            return Err(ParseNumError::Overflow);
        }
        acc = wide as u64;
        i = i + 1;
    }
    proof {
        assert(body.take(body.len() as int) =~= body);
        lemma_digit_prefix_at(body, body.len() as int);
    }
    Ok(acc)
}

/// Extend the digit-prefix characterisation past a known digit prefix: if
/// the first `i` characters are digits, the digit prefix is `i` plus the
/// digit prefix of the rest.
proof fn lemma_digit_prefix_ext(s: Seq<char>, i: int)
    requires
        0 <= i <= s.len(),
        forall|j: int| 0 <= j < i ==> is_digit(#[trigger] s[j]),
    ensures
        digit_prefix_len(s) == i + digit_prefix_len(s.skip(i)),
        i <= digit_prefix_len(s) <= s.len(),
    decreases i,
{
    if i == 0 {
        assert(s.skip(0) =~= s);
        lemma_digit_prefix_bounds(s);
    } else {
        assert(is_digit(s[0]));
        lemma_digit_prefix_ext(s.drop_first(), i - 1);
        assert(s.drop_first().skip(i - 1) =~= s.skip(i));
    }
}

/// The digit prefix length is within bounds.
proof fn lemma_digit_prefix_bounds(s: Seq<char>)
    ensures
        0 <= digit_prefix_len(s) <= s.len(),
    decreases s.len(),
{
    if s.len() > 0 && is_digit(s[0]) {
        lemma_digit_prefix_bounds(s.drop_first());
    }
}

} // verus!
