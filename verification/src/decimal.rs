//! Unsigned decimal text: the digits of a number and the number of a digit
//! string, with the proof that they are inverse to each other.

use vstd::prelude::*;

verus! {

/// Why a string is not an unsigned decimal number.
#[derive(Debug, Clone, Copy, PartialEq, Eq, Structural)]
pub enum ParseUintError {
    /// There was nothing to parse.
    Empty,
    /// A character that is not a decimal digit, or a lone sign.
    InvalidDigit,
    /// The number does not fit the integer type.
    PosOverflow,
}

/// `std::string::String::push` appends the one character `c` to the end of
/// `s` and leaves what was there before in place.
pub assume_specification[ String::push ](s: &mut String, c: char)
    ensures
        final(s)@ == old(s)@.push(c),
;

/// Whether `c` is one of `0` to `9`.
pub open spec fn is_digit(c: char) -> bool {
    '0' <= c <= '9'
}

/// The number that the digit `c` stands for.
pub open spec fn digit_value(c: char) -> nat
    recommends
        is_digit(c),
{
    (c as u32 - '0' as u32) as nat
}

/// The digit that stands for `d`.
pub open spec fn digit_char(d: nat) -> char
    recommends
        d < 10,
{
    ('0' as u8 + d) as u8 as char
}

/// Whether `s` holds digits only.
pub open spec fn all_digits(s: Seq<char>) -> bool {
    forall|i: int| 0 <= i < s.len() ==> is_digit(#[trigger] s[i])
}

/// The number written by the digit string `s`, most significant digit first.
pub open spec fn decimal_value(s: Seq<char>) -> nat
    decreases s.len(),
{
    if s.len() == 0 {
        0
    } else {
        decimal_value(s.drop_last()) * 10 + digit_value(s.last())
    }
}

/// The digits of `n` without leading zeros; `0` is written `"0"`.
pub open spec fn decimal_digits(n: nat) -> Seq<char>
    decreases n,
{
    if n < 10 {
        seq![digit_char(n)]
    } else {
        decimal_digits(n / 10).push(digit_char(n % 10))
    }
}

/// Reads `s` from the left as digits of a number that must not exceed
/// `u32::MAX`. The first character that is no digit, or with which the number
/// grows too large, decides the error.
pub open spec fn scan_u32(s: Seq<char>) -> Result<nat, ParseUintError>
    decreases s.len(),
{
    if s.len() == 0 {
        Ok(0)
    } else {
        match scan_u32(s.drop_last()) {
            Err(e) => Err(e),
            Ok(acc) => if !is_digit(s.last()) {
                Err(ParseUintError::InvalidDigit)
            } else if acc * 10 + digit_value(s.last()) > u32::MAX {
                Err(ParseUintError::PosOverflow)
            } else {
                Ok(acc * 10 + digit_value(s.last()))
            },
        }
    }
}

/// What `s` means as a `u32`: an optional `+`, then at least one digit and
/// nothing else, with a value of at most `u32::MAX`.
pub open spec fn parse_u32_spec(s: Seq<char>) -> Result<u32, ParseUintError> {
    if s.len() == 0 {
        Err(ParseUintError::Empty)
    } else {
        let body = if s[0] == '+' {
            s.skip(1)
        } else {
            s
        };
        if body.len() == 0 {
            Err(ParseUintError::InvalidDigit)
        } else {
            match scan_u32(body) {
                Ok(n) => Ok(n as u32),
                Err(e) => Err(e),
            }
        }
    }
}

/// An error met while scanning a prefix is the error of the whole scan.
pub proof fn lemma_scan_stops(s: Seq<char>, k: int)
    requires
        0 <= k <= s.len(),
    ensures
        scan_u32(s.take(k)) matches Err(e) ==> scan_u32(s) == Err::<nat, ParseUintError>(e),
    decreases s.len() - k,
{
    if k < s.len() {
        assert(s.take(k + 1).drop_last() =~= s.take(k));
        lemma_scan_stops(s, k + 1);
    } else {
        assert(s.take(k) =~= s);
    }
}

/// A scan succeeds exactly on digit strings whose value fits, and then gives
/// that value.
pub proof fn lemma_scan_ok_iff(s: Seq<char>)
    ensures
        scan_u32(s) is Ok <==> all_digits(s) && decimal_value(s) <= u32::MAX,
        scan_u32(s) is Ok ==> scan_u32(s) == Ok::<nat, ParseUintError>(decimal_value(s)),
    decreases s.len(),
{
    if s.len() > 0 {
        let p = s.drop_last();
        lemma_scan_ok_iff(p);
        if all_digits(s) {
            assert forall|i: int| 0 <= i < p.len() implies is_digit(#[trigger] p[i]) by {
                assert(p[i] == s[i]);
            }
        }
        if all_digits(p) && is_digit(s.last()) {
            assert forall|i: int| 0 <= i < s.len() implies is_digit(#[trigger] s[i]) by {
                if i < p.len() {
                    assert(s[i] == p[i]);
                }
            }
        }
    }
}

/// The digits of a number are digits, at least one of them, and they write
/// that number.
pub proof fn lemma_digits_of(n: nat)
    ensures
        decimal_digits(n).len() >= 1,
        all_digits(decimal_digits(n)),
        decimal_value(decimal_digits(n)) == n,
    decreases n,
{
    if n < 10 {
        let s = decimal_digits(n);
        assert(s.drop_last() =~= Seq::<char>::empty());
        assert(decimal_value(s.drop_last()) == 0);
    } else {
        lemma_digits_of(n / 10);
        let p = decimal_digits(n / 10);
        let s = decimal_digits(n);
        assert(s.drop_last() =~= p);
        assert(s.last() == digit_char(n % 10));
    }
}

/// Parsing the digits of a `u32` gives the number back.
pub proof fn lemma_parse_digits(n: u32)
    ensures
        parse_u32_spec(decimal_digits(n as nat)) == Ok::<u32, ParseUintError>(n),
{
    lemma_digits_of(n as nat);
    lemma_scan_ok_iff(decimal_digits(n as nat));
    assert(is_digit(decimal_digits(n as nat)[0]));
}

/// The characters of `s`, in order.
pub fn chars_of(s: &str) -> (v: Vec<char>)
    ensures
        v@ == s@,
{
    let mut v: Vec<char> = Vec::new();
    for c in it: s.chars()
        invariant
            v@ == it.seq().take(it.index() as int),
            it.seq() == s@,
    {
        v.push(c);
    }
    v
}

/// Appends the decimal digits of `n` to `out`.
pub fn push_decimal(out: &mut String, n: u128)
    ensures
        final(out)@ == old(out)@ + decimal_digits(n as nat),
    decreases n,
{
    if n >= 10 {
        push_decimal(out, n / 10);
    }
    let d: u8 = (n % 10) as u8;
    out.push((48u8 + d) as char);
}

/// Parses `text[from..to]` as a `u32`.
pub fn parse_u32(text: &[char], from: usize, to: usize) -> (r: Result<u32, ParseUintError>)
    requires
        from <= to <= text.len(),
    ensures
        r == parse_u32_spec(text@.subrange(from as int, to as int)),
{
    let ghost s = text@.subrange(from as int, to as int);
    if from == to {
        return Err(ParseUintError::Empty);
    }
    let start: usize = if text[from] == '+' {
        from + 1
    } else {
        from
    };
    let ghost body = text@.subrange(start as int, to as int);
    assert(body =~= if s[0] == '+' {
        s.skip(1)
    } else {
        s
    });
    if start == to {
        return Err(ParseUintError::InvalidDigit);
    }
    let mut acc: u32 = 0;
    let mut i: usize = start;
    while i < to
        invariant
            start <= i <= to <= text.len(),
            s == text@.subrange(from as int, to as int),
            body == text@.subrange(start as int, to as int),
            body.len() > 0,
            parse_u32_spec(s) == match scan_u32(body) {
                Ok(n) => Ok::<u32, ParseUintError>(n as u32),
                Err(e) => Err(e),
            },
            scan_u32(body.take(i - start)) == Ok::<nat, ParseUintError>(acc as nat),
        decreases to - i,
    {
        let c = text[i];
        let ghost next = body.take(i - start + 1);
        assert(next.drop_last() =~= body.take(i - start));
        assert(next.last() == c);
        proof {
            lemma_scan_stops(body, i - start + 1);
        }
        if !(c >= '0' && c <= '9') {
            return Err(ParseUintError::InvalidDigit);
        }
        let d: u32 = c as u32 - '0' as u32;
        let grown = match acc.checked_mul(10) {
            Some(m) => m.checked_add(d),
            None => None,
        };
        match grown {
            Some(g) => {
                acc = g;
            },
            None => {
                return Err(ParseUintError::PosOverflow);
            },
        }
        i += 1;
    }
    assert(body.take(i - start) =~= body);
    Ok(acc)
}

} // verus!
