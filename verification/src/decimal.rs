//! Decimal numerals: how a number is written, and how a written number is read.

use crate::chars::chars_of;
use vstd::prelude::*;
use vstd::string::*;

verus! {

/// The character that stands for the digit `d`.
pub open spec fn digit_char(d: nat) -> char
    recommends
        d < 10,
{
    (d + 48) as char
}

/// Whether `c` is one of the ten digits `0` to `9`.
pub open spec fn is_digit(c: char) -> bool {
    48 <= c as u32 <= 57
}

/// The value of the digit `c`.
pub open spec fn digit_value(c: char) -> nat
    recommends
        is_digit(c),
{
    (c as u32 - 48) as nat
}

/// The numeral of `n`: its decimal digits, the most significant first, with
/// no sign and no leading zero.
pub open spec fn decimal(n: nat) -> Seq<char>
    decreases n,
{
    if n < 10 {
        seq![digit_char(n)]
    } else {
        decimal(n / 10).push(digit_char(n % 10))
    }
}

/// The number that the digits `s` write, the most significant first. The empty
/// sequence writes zero.
pub open spec fn digits_value(s: Seq<char>) -> nat
    decreases s.len(),
{
    if s.len() == 0 {
        0
    } else {
        digits_value(s.drop_last()) * 10 + digit_value(s.last())
    }
}

/// Whether every character of `s` is a digit.
pub open spec fn all_digits(s: Seq<char>) -> bool {
    forall|i: int| 0 <= i < s.len() ==> is_digit(#[trigger] s[i])
}

/// The one-character text of the digit `d`.
fn digit_text(d: u8) -> (r: &'static str)
    requires
        d < 10,
    ensures
        r@ == seq![digit_char(d as nat)],
{
    proof {
        reveal_strlit("0");
        reveal_strlit("1");
        reveal_strlit("2");
        reveal_strlit("3");
        reveal_strlit("4");
        reveal_strlit("5");
        reveal_strlit("6");
        reveal_strlit("7");
        reveal_strlit("8");
        reveal_strlit("9");
    }
    let r = match d {
        0 => "0",
        1 => "1",
        2 => "2",
        3 => "3",
        4 => "4",
        5 => "5",
        6 => "6",
        7 => "7",
        8 => "8",
        _ => "9",
    };
    assert(r@ =~= seq![digit_char(d as nat)]);
    r
}

/// Appends the numeral of `n` to `out`.
pub fn append_decimal(out: &mut String, n: u64)
    ensures
        final(out)@ == old(out)@ + decimal(n as nat),
    decreases n,
{
    if n >= 10 {
        append_decimal(out, n / 10);
    }
    let d: u8 = (n % 10) as u8;
    out.append(digit_text(d));
    assert(out@ =~= old(out)@ + decimal(n as nat));
}

/// The numeral of `n` as a string.
pub fn decimal_string(n: u64) -> (r: String)
    ensures
        r@ == decimal(n as nat),
{
    let mut out = String::new();
    append_decimal(&mut out, n);
    assert(out@ =~= decimal(n as nat));
    out
}

/// Why a text is not the numeral of a machine-sized number.
#[derive(Clone, Copy, Debug, PartialEq, Eq, Structural)]
pub enum NumberError {
    /// The text is empty.
    Empty,
    /// A character is not a digit, or a sign stands alone.
    InvalidDigit,
    /// The digits write a number above `usize::MAX`.
    TooLarge,
}

impl NumberError {
    /// What the user is told of this error.
    pub open spec fn text(self) -> Seq<char> {
        match self {
            NumberError::Empty => "cannot parse integer from empty string"@,
            NumberError::InvalidDigit => "invalid digit found in string"@,
            NumberError::TooLarge => "number too large to fit in target type"@,
        }
    }

    /// What the user is told of this error.
    pub fn message(&self) -> (r: String)
        ensures
            r@ == self.text(),
    {
        match self {
            NumberError::Empty => String::from_str("cannot parse integer from empty string"),
            NumberError::InvalidDigit => String::from_str("invalid digit found in string"),
            NumberError::TooLarge => String::from_str("number too large to fit in target type"),
        }
    }
}

/// How many digits `s` begins with.
pub open spec fn digit_run(s: Seq<char>) -> nat
    decreases s.len(),
{
    if s.len() > 0 && is_digit(s[0]) {
        1 + digit_run(s.drop_first())
    } else {
        0
    }
}

/// `s` without the plus sign that may lead it.
pub open spec fn unsigned_part(s: Seq<char>) -> Seq<char> {
    if s.len() > 0 && s[0] == '+' {
        s.drop_first()
    } else {
        s
    }
}

/// The number that the text `s` writes: digits, with at most a plus sign before
/// them. Leading zeros count for nothing. The text is read from the left, and
/// the first thing wrong with it decides the error: digits that already exceed
/// `usize::MAX` come before a stray character further right.
pub open spec fn parsed(s: Seq<char>) -> Result<usize, NumberError> {
    let body = unsigned_part(s);
    let run = body.take(digit_run(body) as int);
    if s.len() == 0 {
        Err(NumberError::Empty)
    } else if body.len() == 0 {
        Err(NumberError::InvalidDigit)
    } else if digits_value(run) > usize::MAX {
        Err(NumberError::TooLarge)
    } else if run.len() < body.len() {
        Err(NumberError::InvalidDigit)
    } else {
        Ok(digits_value(body) as usize)
    }
}

/// The digits that `s` begins with are digits, there are no more of them than
/// `s` is long, and what follows them, if anything, is not a digit.
pub proof fn lemma_digit_run(s: Seq<char>)
    ensures
        digit_run(s) <= s.len(),
        all_digits(s.take(digit_run(s) as int)),
        digit_run(s) < s.len() ==> !is_digit(s[digit_run(s) as int]),
    decreases s.len(),
{
    if s.len() > 0 && is_digit(s[0]) {
        let rest = s.drop_first();
        lemma_digit_run(rest);
        let k = digit_run(rest) as int;
        assert forall|i: int| 0 <= i < k + 1 implies is_digit(#[trigger] s.take(k + 1)[i]) by {
            if i > 0 {
                assert(s.take(k + 1)[i] == rest.take(k)[i - 1]);
            }
        }
        if k + 1 < s.len() {
            assert(s[k + 1] == rest[k]);
        }
    }
}

/// A longer beginning of `s` writes no smaller a number.
pub proof fn lemma_value_grows(s: Seq<char>, a: int, b: int)
    requires
        0 <= a <= b <= s.len(),
    ensures
        digits_value(s.take(a)) <= digits_value(s.take(b)),
    decreases b - a,
{
    if a < b {
        lemma_value_grows(s, a, b - 1);
        assert(s.take(b).drop_last() =~= s.take(b - 1));
    }
}

/// A numeral is made of digits, at least one, and writes its number.
pub proof fn lemma_decimal_value(n: nat)
    ensures
        decimal(n).len() >= 1,
        all_digits(decimal(n)),
        digits_value(decimal(n)) == n,
    decreases n,
{
    if n < 10 {
        assert(decimal(n).drop_last() =~= Seq::<char>::empty());
        assert(digits_value(decimal(n).drop_last()) == 0);
    } else {
        lemma_decimal_value(n / 10);
        assert(decimal(n).drop_last() =~= decimal(n / 10));
    }
}

/// Two numbers with one numeral are one number.
pub proof fn lemma_decimal_injective(a: nat, b: nat)
    requires
        decimal(a) == decimal(b),
    ensures
        a == b,
{
    lemma_decimal_value(a);
    lemma_decimal_value(b);
}

/// A numeral has no leading zero: only that of zero begins with `0`.
pub proof fn lemma_decimal_no_leading_zero(n: nat)
    ensures
        decimal(n)[0] == '0' <==> n == 0,
    decreases n,
{
    if n >= 10 {
        lemma_decimal_no_leading_zero(n / 10);
        lemma_decimal_value(n / 10);
    }
}

/// A text is read as a number exactly when, after the plus sign that may lead
/// it, it is made of digits, at least one, that write no more than `usize::MAX`;
/// it is then read as the number they write.
pub proof fn lemma_parsed_ok(s: Seq<char>)
    ensures
        parsed(s) is Ok <==> unsigned_part(s).len() > 0 && all_digits(unsigned_part(s))
            && digits_value(unsigned_part(s)) <= usize::MAX,
        parsed(s) is Ok ==> parsed(s) == Ok::<usize, NumberError>(
            digits_value(unsigned_part(s)) as usize,
        ),
{
    let body = unsigned_part(s);
    let run = digit_run(body) as int;
    lemma_digit_run(body);
    if run == body.len() {
        assert(body.take(run) =~= body);
    } else {
        assert(!is_digit(body[run]));
    }
}

/// Reading the numeral of a number gives the number back.
pub proof fn lemma_decimal_parses(n: nat)
    requires
        n <= usize::MAX,
    ensures
        parsed(decimal(n)) == Ok::<usize, NumberError>(n as usize),
{
    lemma_decimal_value(n);
    let s = decimal(n);
    assert(is_digit(s[0]));
    assert(unsigned_part(s) == s);
    lemma_parsed_ok(s);
}

/// Reads `s` as the numeral of a number.
pub fn parse_number(s: &str) -> (r: Result<usize, NumberError>)
    ensures
        r == parsed(s@),
{
    let text = chars_of(s);
    let len = text.len();
    if len == 0 {
        return Err(NumberError::Empty);
    }
    let start: usize = if text[0] == '+' {
        1
    } else {
        0
    };
    if start == len {
        return Err(NumberError::InvalidDigit);
    }
    let ghost body = unsigned_part(text@);
    let ghost run = digit_run(body) as int;
    proof {
        lemma_digit_run(body);
    }
    let mut value: usize = 0;
    let mut i: usize = start;
    while i < len
        invariant
            start <= i <= len == text@.len(),
            text@ == s@,
            body == unsigned_part(text@),
            body.len() == len - start > 0,
            forall|j: int| 0 <= j < body.len() ==> body[j] == text@[j + start],
            run == digit_run(body),
            i - start <= run <= body.len(),
            all_digits(body.take(run)),
            run < body.len() ==> !is_digit(body[run]),
            value == digits_value(body.take(i - start)),
        decreases len - i,
    {
        let code: u32 = text[i] as u32;
        let ghost k = i - start;
        assert(body[k] == text@[i as int]);
        if code < 48 || code > 57 {
            proof {
                if k < run {
                    assert(body.take(run)[k] == body[k]);
                }
                assert(run == k);
            }
            return Err(NumberError::InvalidDigit);
        }
        proof {
            assert(k < run);
            assert(body.take(k + 1).drop_last() =~= body.take(k));
            assert(digits_value(body.take(k + 1)) == value * 10 + (code - 48));
            lemma_value_grows(body, k + 1, run);
        }
        let digit: usize = (code - 48) as usize;
        let shifted = match value.checked_mul(10) {
            Some(shifted) => shifted,
            None => {
                return Err(NumberError::TooLarge);
            },
        };
        value =
        match shifted.checked_add(digit) {
            Some(sum) => sum,
            None => {
                return Err(NumberError::TooLarge);
            },
        };
        i = i + 1;
    }
    proof {
        assert(body.take(run) =~= body);
        assert(body.take(i - start) =~= body);
    }
    Ok(value)
}

} // verus!
