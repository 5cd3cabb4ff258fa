//! Numerals: unsigned decimal integers as `str::parse` reads them, and the
//! grammar of floating-point literals by which a price text is accepted.

use vstd::prelude::*;
use crate::text::decimal_digits;

verus! {

/// Whether `c` is one of the ten ASCII digits.
pub open spec fn is_digit(c: char) -> bool {
    0x30 <= c as u32 <= 0x39
}

/// The number that the digit `c` writes.
pub open spec fn digit_value(c: char) -> nat {
    (c as u32 - 0x30) as nat
}

/// Whether `s` holds digits only.
pub open spec fn all_digits(s: Seq<char>) -> bool {
    forall|i: int| 0 <= i < s.len() ==> is_digit(#[trigger] s[i])
}

/// The number that the digits `s` write in base ten.
pub open spec fn digits_value(s: Seq<char>) -> nat
    decreases s.len(),
{
    if s.len() == 0 {
        0
    } else {
        10 * digits_value(s.drop_last()) + digit_value(s.last())
    }
}

/// `s` without one leading `+`.
pub open spec fn unsigned_body(s: Seq<char>) -> Seq<char> {
    if s.len() > 0 && s[0] == '+' {
        s.drop_first()
    } else {
        s
    }
}

/// What an unsigned integer type with largest value `max` reads from `s`:
/// an optional `+`, then at least one digit and nothing else, the number
/// written being no larger than `max`.
pub open spec fn parsed_unsigned(s: Seq<char>, max: nat) -> Option<nat> {
    let body = unsigned_body(s);
    if body.len() > 0 && all_digits(body) && digits_value(body) <= max {
        Some(digits_value(body))
    } else {
        None
    }
}

/// A numeral is worth at least as much as each of its beginnings.
pub proof fn lemma_digits_value_grows(s: Seq<char>, k: int)
    requires
        0 <= k <= s.len(),
    ensures
        digits_value(s.take(k)) <= digits_value(s),
    decreases s.len() - k,
{
    if k == s.len() {
        assert(s.take(k) =~= s);
    } else {
        lemma_digits_value_grows(s.drop_last(), k);
        assert(s.drop_last().take(k) =~= s.take(k));
    }
}

/// A number written in decimal is read back as itself: its numeral has at
/// least one character, digits only, and is worth the number.
pub proof fn lemma_decimal_round_trip(n: nat)
    ensures
        decimal_digits(n).len() >= 1,
        all_digits(decimal_digits(n)),
        digits_value(decimal_digits(n)) == n,
        forall|max: nat| n <= max ==> parsed_unsigned(decimal_digits(n), max) == Some(n),
    decreases n,
{
    let s = decimal_digits(n);
    if n < 10 {
        assert(s.drop_last() =~= Seq::<char>::empty());
        assert(is_digit(s[0]) && digit_value(s[0]) == n);
        assert(digits_value(s.drop_last()) == 0);
    } else {
        lemma_decimal_round_trip(n / 10);
        let head = decimal_digits(n / 10);
        assert(s.drop_last() =~= head);
        assert(is_digit(s.last()) && digit_value(s.last()) == n % 10);
        assert forall|i: int| 0 <= i < s.len() implies is_digit(#[trigger] s[i]) by {
            if i < head.len() {
                assert(s[i] == head[i]);
            }
        }
    }
    assert(unsigned_body(s) == s);
}

fn digit_of_char(c: char) -> (r: Option<u64>)
    ensures
        match r {
            Some(d) => is_digit(c) && d == digit_value(c),
            None => !is_digit(c),
        },
{
    let n: u32 = c as u32;
    if 0x30 <= n && n <= 0x39 {
        Some((n - 0x30) as u64)
    } else {
        None
    }
}

/// Reads an unsigned 64-bit integer from `s`.
pub fn parse_u64(s: &Vec<char>) -> (r: Option<u64>)
    ensures
        match r {
            Some(n) => parsed_unsigned(s@, u64::MAX as nat) == Some(n as nat),
            None => parsed_unsigned(s@, u64::MAX as nat) is None,
        },
{
    let start: usize = if s.len() > 0 && s[0] == '+' {
        1
    } else {
        0
    };
    let ghost body = unsigned_body(s@);
    assert(body =~= s@.skip(start as int));
    if start == s.len() {
        return None;
    }
    let mut acc: u64 = 0;
    let mut i: usize = start;
    while i < s.len()
        invariant
            start <= i <= s.len(),
            body == s@.skip(start as int),
            body == unsigned_body(s@),
            all_digits(body.take(i - start)),
            acc == digits_value(body.take(i - start)),
        decreases s.len() - i,
    {
        let ghost seen = body.take(i - start);
        let ghost next = body.take(i - start + 1);
        assert(next.drop_last() =~= seen);
        assert(next.last() == s@[i as int]);
        match digit_of_char(s[i]) {
            None => {
                assert(!is_digit(body[i - start]));
                return None;
            },
            Some(d) => {
                proof {
                    lemma_digits_value_grows(body, i - start + 1);
                }
                if acc > (u64::MAX - d) / 10 {
                    assert(digits_value(next) > u64::MAX);
                    assert(digits_value(body) > u64::MAX);
                    return None;
                }
                acc = acc * 10 + d;
                assert forall|j: int| 0 <= j < next.len() implies is_digit(#[trigger] next[j]) by {
                    if j < seen.len() {
                        assert(next[j] == seen[j]);
                    }
                }
            },
        }
        i += 1;
    }
    assert(body.take(i - start) =~= body);
    Some(acc)
}

/// Reads a `usize` from `s`.
pub fn parse_usize(s: &Vec<char>) -> (r: Option<usize>)
    ensures
        match r {
            Some(n) => parsed_unsigned(s@, usize::MAX as nat) == Some(n as nat),
            None => parsed_unsigned(s@, usize::MAX as nat) is None,
        },
{
    match parse_u64(s) {
        Some(n) => {
            if n <= usize::MAX as u64 {
                Some(n as usize)
            } else {
                None
            }
        },
        None => None,
    }
}

/// The index just behind the digits that stand at `from` and after it.
pub open spec fn digit_run(s: Seq<char>, from: int) -> int
    decreases s.len() - from,
{
    if 0 <= from < s.len() && is_digit(s[from]) {
        digit_run(s, from + 1)
    } else {
        from
    }
}

/// Whether `c` is a sign.
pub open spec fn is_sign(c: char) -> bool {
    c == '+' || c == '-'
}

/// Whether `s` is `word`, each letter in either case.
pub open spec fn is_word(s: Seq<char>, lower: Seq<char>, upper: Seq<char>) -> bool {
    &&& s.len() == lower.len()
    &&& forall|i: int| 0 <= i < s.len() ==> s[i] == lower[i] || s[i] == upper[i]
}

/// The three words that name a float that is no number: `inf`, `infinity`
/// and `nan`, in any mix of cases.
pub open spec fn is_special_float(s: Seq<char>) -> bool {
    ||| is_word(s, seq!['i', 'n', 'f'], seq!['I', 'N', 'F'])
    ||| is_word(s, seq!['n', 'a', 'n'], seq!['N', 'A', 'N'])
    ||| is_word(
        s,
        seq!['i', 'n', 'f', 'i', 'n', 'i', 't', 'y'],
        seq!['I', 'N', 'F', 'I', 'N', 'I', 'T', 'Y'],
    )
}

/// Whether an exponent stands at `at` and ends the text: `e` or `E`, an
/// optional sign, at least one digit.
pub open spec fn is_exponent(s: Seq<char>, at: int) -> bool {
    &&& 0 <= at < s.len()
    &&& (s[at] == 'e' || s[at] == 'E')
    &&& {
        let d = if at + 1 < s.len() && is_sign(s[at + 1]) {
            at + 2
        } else {
            at + 1
        };
        digit_run(s, d) > d && digit_run(s, d) == s.len()
    }
}

/// Whether `s` is an unsigned decimal number: digits with at most one point
/// among or beside them, at least one digit in all, then an optional exponent.
pub open spec fn is_decimal_number(s: Seq<char>) -> bool {
    let a = digit_run(s, 0);
    let pointed = a < s.len() && s[a] == '.';
    let b = if pointed {
        digit_run(s, a + 1)
    } else {
        a
    };
    let digits = if pointed {
        b - 1
    } else {
        b
    };
    digits >= 1 && (b == s.len() || is_exponent(s, b))
}

/// Whether `s` is a floating-point literal: an optional sign, then a decimal
/// number or one of the special words.
pub open spec fn is_float_literal(s: Seq<char>) -> bool {
    let body = if s.len() > 0 && is_sign(s[0]) {
        s.drop_first()
    } else {
        s
    };
    is_special_float(body) || is_decimal_number(body)
}

fn skip_digits(s: &Vec<char>, from: usize) -> (r: usize)
    requires
        from <= s.len(),
    ensures
        r == digit_run(s@, from as int),
        from <= r <= s.len(),
{
    let mut i: usize = from;
    while i < s.len() && digit_of_char(s[i]).is_some()
        invariant
            from <= i <= s.len(),
            digit_run(s@, from as int) == digit_run(s@, i as int),
        decreases s.len() - i,
    {
        i += 1;
    }
    i
}

fn letter_is(c: char, lower: char, upper: char) -> (r: bool)
    ensures
        r == (c == lower || c == upper),
{
    c == lower || c == upper
}

fn special_float(s: &Vec<char>) -> (r: bool)
    ensures
        r == is_special_float(s@),
{
    if s.len() == 3 {
        let inf = letter_is(s[0], 'i', 'I') && letter_is(s[1], 'n', 'N') && letter_is(s[2], 'f', 'F');
        let nan = letter_is(s[0], 'n', 'N') && letter_is(s[1], 'a', 'A') && letter_is(s[2], 'n', 'N');
        inf || nan
    } else if s.len() == 8 {
        letter_is(s[0], 'i', 'I') && letter_is(s[1], 'n', 'N') && letter_is(s[2], 'f', 'F')
            && letter_is(s[3], 'i', 'I') && letter_is(s[4], 'n', 'N') && letter_is(s[5], 'i', 'I')
            && letter_is(s[6], 't', 'T') && letter_is(s[7], 'y', 'Y')
    } else {
        false
    }
}

fn exponent_at(s: &Vec<char>, at: usize) -> (r: bool)
    requires
        at < s.len(),
    ensures
        r == is_exponent(s@, at as int),
{
    if !letter_is(s[at], 'e', 'E') {
        return false;
    }
    let d: usize = if at + 1 < s.len() && (s[at + 1] == '+' || s[at + 1] == '-') {
        at + 2
    } else {
        at + 1
    };
    let end = skip_digits(s, d);
    end > d && end == s.len()
}

fn decimal_number(s: &Vec<char>) -> (r: bool)
    ensures
        r == is_decimal_number(s@),
{
    let a = skip_digits(s, 0);
    let pointed = a < s.len() && s[a] == '.';
    let b: usize = if pointed {
        skip_digits(s, a + 1)
    } else {
        a
    };
    let digits: usize = if pointed {
        b - 1
    } else {
        b
    };
    if digits < 1 {
        return false;
    }
    if b == s.len() {
        return true;
    }
    exponent_at(s, b)
}

/// Whether `s` is a floating-point literal.
pub fn float_literal(s: &Vec<char>) -> (r: bool)
    ensures
        r == is_float_literal(s@),
{
    if s.len() > 0 && (s[0] == '+' || s[0] == '-') {
        let body = crate::text::slice_of(s, 1, s.len());
        assert(body@ =~= s@.drop_first());
        special_float(&body) || decimal_number(&body)
    } else {
        special_float(s) || decimal_number(s)
    }
}

} // verus!
