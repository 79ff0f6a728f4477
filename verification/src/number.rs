use vstd::prelude::*;

verus! {

/// Why a text is not a decimal number that fits 32 bits.
#[derive(Clone, Copy, Debug, PartialEq, Eq, Structural)]
pub enum NumberError {
    /// The text is empty.
    Empty,
    /// The text holds a character that is no decimal digit, or a sign and
    /// nothing more.
    InvalidDigit,
    /// The digits stand for a number greater than `u32::MAX`.
    PosOverflow,
}

/// Whether `c` is one of the ten decimal digits.
pub open spec fn is_digit(c: char) -> bool {
    '0' <= c <= '9'
}

/// The number that the digit `c` stands for.
pub open spec fn digit_value(c: char) -> int {
    c as int - '0' as int
}

/// The number that a sequence of digits stands for, the most significant
/// digit first.
pub open spec fn digits_value(s: Seq<char>) -> int
    decreases s.len(),
{
    if s.len() == 0 {
        0
    } else {
        10 * digits_value(s.drop_last()) + digit_value(s.last())
    }
}

/// Whether every character of `s` is a decimal digit.
pub open spec fn all_digits(s: Seq<char>) -> bool {
    forall|i: int| 0 <= i < s.len() ==> is_digit(#[trigger] s[i])
}

/// What reading `s` from the left as a sequence of digits gives: the number,
/// or the first thing to go wrong. At each character, one that is no digit is
/// `InvalidDigit`; a digit with which the number passes `u32::MAX` is
/// `PosOverflow`.
pub open spec fn parse_digits(s: Seq<char>) -> Result<u32, NumberError>
    decreases s.len(),
{
    if s.len() == 0 {
        Ok(0)
    } else {
        match parse_digits(s.drop_last()) {
            Err(e) => Err(e),
            Ok(v) => if !is_digit(s.last()) {
                Err(NumberError::InvalidDigit)
            } else if 10 * v + digit_value(s.last()) > u32::MAX {
                Err(NumberError::PosOverflow)
            } else {
                Ok((10 * v + digit_value(s.last())) as u32)
            },
        }
    }
}

/// What `s` stands for as a decimal number of 32 bits: digits only, with one
/// `+` allowed in front of them. Neither blanks nor `-` nor `_` are taken.
pub open spec fn parse_decimal(s: Seq<char>) -> Result<u32, NumberError> {
    if s.len() == 0 {
        Err(NumberError::Empty)
    } else {
        let digits = if s[0] == '+' {
            s.drop_first()
        } else {
            s
        };
        if digits.len() == 0 {
            Err(NumberError::InvalidDigit)
        } else {
            parse_digits(digits)
        }
    }
}

/// Reading succeeds exactly on digits whose number fits, and gives that
/// number.
pub proof fn lemma_parse_digits_ok(s: Seq<char>)
    ensures
        parse_digits(s) is Ok <==> all_digits(s) && digits_value(s) <= u32::MAX,
        parse_digits(s) matches Ok(v) ==> v == digits_value(s),
        all_digits(s) ==> 0 <= digits_value(s),
    decreases s.len(),
{
    if s.len() > 0 {
        let front = s.drop_last();
        lemma_parse_digits_ok(front);
        assert(forall|i: int| 0 <= i < front.len() ==> front[i] == s[i]);
        if all_digits(s) {
            assert(is_digit(s[s.len() - 1]));
            assert(all_digits(front));
        }
        if all_digits(front) && is_digit(s.last()) {
            assert(all_digits(s));
        }
    }
}

/// The characters of `s`, in order.
pub fn chars_of(s: &str) -> (v: Vec<char>)
    ensures
        v@ == s@,
{
    let n: usize = s.unicode_len();
    let mut v: Vec<char> = Vec::new();
    let mut i: usize = 0;
    while i < n
        invariant
            n == s@.len(),
            i <= n,
            v@ == s@.take(i as int),
        decreases n - i,
    {
        v.push(s.get_char(i));
        proof {
            assert(s@.take(i as int).push(s@[i as int]) =~= s@.take(i + 1));
        }
        i += 1;
    }
    proof {
        assert(s@.take(n as int) =~= s@);
    }
    v
}

/// The decimal number that the characters `from..to` of `chars` stand for.
pub fn parse_u32_range(chars: &Vec<char>, from: usize, to: usize) -> (r: Result<u32, NumberError>)
    requires
        from <= to <= chars@.len(),
    ensures
        r == parse_decimal(chars@.subrange(from as int, to as int)),
{
    let ghost s = chars@.subrange(from as int, to as int);
    if from == to {
        return Err(NumberError::Empty);
    }
    let start: usize = if chars[from] == '+' {
        from + 1
    } else {
        from
    };
    let ghost digits = chars@.subrange(start as int, to as int);
    proof {
        assert(s[0] == chars@[from as int]);
        if s[0] == '+' {
            assert(s.drop_first() =~= digits);
        } else {
            assert(s =~= digits);
        }
    }
    if start == to {
        return Err(NumberError::InvalidDigit);
    }
    let mut acc: u32 = 0;
    let mut i: usize = start;
    while i < to
        invariant
            start <= i <= to <= chars@.len(),
            digits == chars@.subrange(start as int, to as int),
            parse_decimal(chars@.subrange(from as int, to as int)) == parse_digits(digits),
            parse_digits(digits.take(i - start)) == Ok::<u32, NumberError>(acc),
        decreases to - i,
    {
        let c: char = chars[i];
        proof {
            let seen = digits.take(i - start);
            let next = digits.take(i - start + 1);
            assert(next.drop_last() =~= seen);
            assert(next.last() == c);
            if parse_digits(next) is Err {
                lemma_parse_digits_err_stays(digits, i - start + 1);
            }
        }
        if !(c >= '0' && c <= '9') {
            return Err(NumberError::InvalidDigit);
        }
        let d: u32 = c as u32 - '0' as u32;
        if acc > (u32::MAX - d) / 10 {
            return Err(NumberError::PosOverflow);
        }
        acc = 10 * acc + d;
        i += 1;
    }
    proof {
        assert(digits.take(to - start) =~= digits);
    }
    Ok(acc)
}

/// Once reading has failed it has failed for good: what a prefix of `s`
/// fails with, `s` fails with.
pub proof fn lemma_parse_digits_err_stays(s: Seq<char>, k: int)
    requires
        0 <= k <= s.len(),
        parse_digits(s.take(k)) is Err,
    ensures
        parse_digits(s) == parse_digits(s.take(k)),
    decreases s.len() - k,
{
    if k < s.len() {
        assert(s.take(k + 1).drop_last() =~= s.take(k));
        lemma_parse_digits_err_stays(s, k + 1);
    } else {
        assert(s.take(k) =~= s);
    }
}

/// The decimal number that `s` stands for: digits only, with one `+` allowed
/// in front of them.
pub fn parse_u32(s: &str) -> (r: Result<u32, NumberError>)
    ensures
        r == parse_decimal(s@),
{
    let chars = chars_of(s);
    let n: usize = chars.len();
    proof {
        assert(chars@.subrange(0, n as int) =~= chars@);
    }
    parse_u32_range(&chars, 0, n)
}

} // verus!
