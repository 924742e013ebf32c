//! Unsigned and signed numbers as decimal text.
use crate::text::chars_of;
use vstd::prelude::*;

verus! {

/// Why a text is no unsigned 64-bit number.
#[derive(Clone, Copy, Debug, PartialEq, Eq, Structural)]
pub enum NumberError {
    /// There is nothing to read.
    Empty,
    /// A character is not a digit where a digit has to stand.
    InvalidDigit,
    /// The value is larger than the largest unsigned 64-bit number.
    TooLarge,
}

/// Whether `c` is one of `0` to `9`.
pub open spec fn is_digit(c: char) -> bool {
    '0' <= c <= '9'
}

/// The value of the digit `c`.
pub open spec fn digit_value(c: char) -> int {
    c as int - '0' as int
}

/// The digit of value `d`.
pub open spec fn digit(d: int) -> char {
    if d == 0 {
        '0'
    } else if d == 1 {
        '1'
    } else if d == 2 {
        '2'
    } else if d == 3 {
        '3'
    } else if d == 4 {
        '4'
    } else if d == 5 {
        '5'
    } else if d == 6 {
        '6'
    } else if d == 7 {
        '7'
    } else if d == 8 {
        '8'
    } else {
        '9'
    }
}

/// `n` in decimal, without leading zeros.
pub open spec fn decimal_spec(n: nat) -> Seq<char>
    decreases n,
{
    if n < 10 {
        seq![digit(n as int)]
    } else {
        decimal_spec(n / 10).push(digit((n % 10) as int))
    }
}

/// `i` in decimal, with a minus sign if it is negative.
pub open spec fn signed_decimal_spec(i: int) -> Seq<char> {
    if i < 0 {
        "-"@ + decimal_spec((-i) as nat)
    } else {
        decimal_spec(i as nat)
    }
}

/// The number that the digits of `s` continue `high` to. The first character that is no
/// digit, or that carries the number past 64 bits, decides the error.
pub open spec fn digits_spec(s: Seq<char>, high: int) -> Result<int, NumberError>
    decreases s.len(),
{
    if s.len() == 0 {
        Ok(high)
    } else if !is_digit(s[0]) {
        Err(NumberError::InvalidDigit)
    } else if high * 10 + digit_value(s[0]) > u64::MAX {
        Err(NumberError::TooLarge)
    } else {
        digits_spec(s.drop_first(), high * 10 + digit_value(s[0]))
    }
}

/// The digits of a numeral: what follows its plus sign, where it has one.
pub open spec fn unsigned_part(s: Seq<char>) -> Seq<char> {
    if s.len() > 1 && s[0] == '+' {
        s.drop_first()
    } else {
        s
    }
}

/// What an optional plus sign and at least one decimal digit stand for.
pub open spec fn parse_u64_spec(s: Seq<char>) -> Result<int, NumberError> {
    if s.len() == 0 {
        Err(NumberError::Empty)
    } else {
        digits_spec(unsigned_part(s), 0)
    }
}

impl NumberError {
    /// The error in words.
    pub open spec fn message_spec(self) -> Seq<char> {
        match self {
            NumberError::Empty => "cannot parse integer from empty string"@,
            NumberError::InvalidDigit => "invalid digit found in string"@,
            NumberError::TooLarge => "number too large to fit in target type"@,
        }
    }

    /// The error in words.
    pub fn message(self) -> (r: &'static str)
        ensures
            r@ == self.message_spec(),
    {
        match self {
            NumberError::Empty => "cannot parse integer from empty string",
            NumberError::InvalidDigit => "invalid digit found in string",
            NumberError::TooLarge => "number too large to fit in target type",
        }
    }
}

/// Reads an optional plus sign and decimal digits as an unsigned 64-bit number.
pub fn parse_u64(s: &str) -> (r: Result<u64, NumberError>)
    ensures
        match parse_u64_spec(s@) {
            Ok(value) => r == Ok::<u64, NumberError>(value as u64) && 0 <= value <= u64::MAX,
            Err(e) => r == Err::<u64, NumberError>(e),
        },
{
    let chars = chars_of(s);
    let n: usize = chars.len();
    if n == 0 {
        return Err(NumberError::Empty);
    }
    let start: usize = if n > 1 && chars[0] == '+' {
        1
    } else {
        0
    };
    assert(unsigned_part(s@) =~= s@.skip(start as int));
    let mut value: u64 = 0;
    let mut i: usize = start;
    while i < n
        invariant
            n == chars@.len(),
            chars@ == s@,
            n > 0,
            start <= i <= n,
            parse_u64_spec(s@) == digits_spec(s@.skip(i as int), value as int),
        decreases n - i,
    {
        let c: char = chars[i];
        let ghost rest = s@.skip(i as int);
        assert(rest[0] == c);
        assert(rest.drop_first() =~= s@.skip(i + 1));
        if c < '0' || c > '9' {
            return Err(NumberError::InvalidDigit);
        }
        let d: u64 = (c as u32 - 48) as u64;
        if value > 1844674407370955161 || value * 10 > u64::MAX - d {
            return Err(NumberError::TooLarge);
        }
        value = value * 10 + d;
        i = i + 1;
    }
    assert(s@.skip(n as int).len() == 0);
    Ok(value)
}

/// The digit of value `d`.
fn digit_text(d: u64) -> (r: &'static str)
    requires
        d < 10,
    ensures
        r@ == seq![digit(d as int)],
{
    proof {
        reveal_strlit("0123456789");
    }
    let digits: &'static str = "0123456789";
    assert(digits@.subrange(d as int, d + 1) =~= seq![digit(d as int)]);
    digits.substring_char(d as usize, d as usize + 1)
}

/// `n` in decimal, without leading zeros.
pub fn decimal(n: u64) -> (r: String)
    ensures
        r@ == decimal_spec(n as nat),
    decreases n,
{
    if n < 10 {
        digit_text(n).to_owned()
    } else {
        let mut text = decimal(n / 10);
        text.append(digit_text(n % 10));
        assert(text@ =~= decimal_spec(n as nat));
        text
    }
}

/// `i` in decimal, with a minus sign if it is negative.
pub fn signed_decimal(i: i32) -> (r: String)
    ensures
        r@ == signed_decimal_spec(i as int),
{
    if i < 0 {
        let mut text = "-".to_owned();
        let magnitude: u64 = (-(i as i64)) as u64;
        let digits = decimal(magnitude);
        text.append(digits.as_str());
        text
    } else {
        decimal(i as u64)
    }
}

/// Reading the decimal digits of `n` before further digits goes on from `n`.
pub proof fn lemma_digits_of_decimal(n: nat, rest: Seq<char>)
    requires
        n <= u64::MAX,
    ensures
        digits_spec(decimal_spec(n) + rest, 0) == digits_spec(rest, n as int),
        decimal_spec(n).len() > 0,
        forall|i: int| 0 <= i < decimal_spec(n).len() ==> is_digit(#[trigger] decimal_spec(n)[i]),
    decreases n,
{
    if n < 10 {
        let all = decimal_spec(n) + rest;
        assert(all[0] == digit(n as int));
        assert(all.drop_first() =~= rest);
    } else {
        let last = digit((n % 10) as int);
        let tail = seq![last] + rest;
        lemma_digits_of_decimal(n / 10, tail);
        assert(decimal_spec(n) + rest =~= decimal_spec(n / 10) + tail);
        assert(tail[0] == last);
        assert(tail.drop_first() =~= rest);
        assert forall|i: int| 0 <= i < decimal_spec(n).len() implies is_digit(
            #[trigger] decimal_spec(n)[i],
        ) by {
            if i < decimal_spec(n / 10).len() {
                assert(decimal_spec(n)[i] == decimal_spec(n / 10)[i]);
            }
        }
    }
}

/// Every unsigned 64-bit number is read back from its decimal text.
pub proof fn law_decimal_reads_back(n: u64)
    ensures
        parse_u64_spec(decimal_spec(n as nat)) == Ok::<int, NumberError>(n as int),
{
    let text = decimal_spec(n as nat);
    lemma_digits_of_decimal(n as nat, seq![]);
    assert(text + seq![] =~= text);
    assert(is_digit(text[0]));
}

/// The number that the digits of `s` stand for, most significant first.
pub open spec fn numeral_value(s: Seq<char>) -> int
    decreases s.len(),
{
    if s.len() == 0 {
        0
    } else {
        numeral_value(s.drop_last()) * 10 + digit_value(s.last())
    }
}

/// A text is a number exactly when a plus sign that may be absent is followed by at least
/// one digit, by digits only, and their value fits in 64 bits; the number is that value.
pub proof fn law_parse_u64_is_numeral_value(s: Seq<char>, value: int)
    ensures
        parse_u64_spec(s) == Ok::<int, NumberError>(value) <==> {
            let digits = unsigned_part(s);
            &&& digits.len() > 0
            &&& forall|i: int| 0 <= i < digits.len() ==> is_digit(#[trigger] digits[i])
            &&& numeral_value(digits) <= u64::MAX
            &&& numeral_value(digits) == value
        },
{
    if s.len() > 0 {
        let digits = unsigned_part(s);
        assert(digits.take(0) =~= seq![]);
        assert(digits.skip(0) =~= digits);
        lemma_digits_value(digits, 0, value);
    }
}

proof fn lemma_digits_value(s: Seq<char>, at: int, value: int)
    requires
        0 <= at <= s.len(),
        forall|i: int| 0 <= i < at ==> is_digit(#[trigger] s[i]),
        0 <= numeral_value(s.take(at)) <= u64::MAX,
    ensures
        digits_spec(s.skip(at), numeral_value(s.take(at))) == Ok::<int, NumberError>(value) <==> {
            &&& forall|i: int| 0 <= i < s.len() ==> is_digit(#[trigger] s[i])
            &&& numeral_value(s) <= u64::MAX
            &&& numeral_value(s) == value
        },
    decreases s.len() - at,
{
    if at == s.len() {
        assert(s.take(at) =~= s);
    } else {
        let rest = s.skip(at);
        let high = numeral_value(s.take(at));
        assert(rest[0] == s[at]);
        assert(rest.drop_first() =~= s.skip(at + 1));
        assert(s.take(at + 1).drop_last() =~= s.take(at));
        assert(s.take(at + 1).last() == s[at]);
        if is_digit(s[at]) {
            if high * 10 + digit_value(s[at]) > u64::MAX {
                if forall|i: int| 0 <= i < s.len() ==> is_digit(#[trigger] s[i]) {
                    lemma_value_grows(s, at + 1);
                }
            } else {
                lemma_digits_value(s, at + 1, value);
            }
        }
    }
}

/// More digits are worth no less.
pub(crate) proof fn lemma_value_grows(s: Seq<char>, at: int)
    requires
        0 <= at <= s.len(),
        forall|i: int| 0 <= i < s.len() ==> is_digit(#[trigger] s[i]),
    ensures
        0 <= numeral_value(s.take(at)) <= numeral_value(s),
    decreases s.len() + at,
{
    if at < s.len() {
        let shorter = s.drop_last();
        assert forall|i: int| 0 <= i < shorter.len() implies is_digit(#[trigger] shorter[i]) by {
            assert(shorter[i] == s[i]);
        }
        lemma_value_grows(shorter, at);
        assert(shorter.take(at) =~= s.take(at));
        assert(is_digit(s[s.len() - 1]));
    } else {
        assert(s.take(at) =~= s);
        if s.len() > 0 {
            let shorter = s.drop_last();
            assert forall|i: int| 0 <= i < shorter.len() implies is_digit(#[trigger] shorter[i]) by {
                assert(shorter[i] == s[i]);
            }
            lemma_value_grows(shorter, shorter.len() as int);
            assert(is_digit(s[s.len() - 1]));
        }
    }
}

} // verus!
