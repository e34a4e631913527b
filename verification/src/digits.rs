//! Decimal text for integers: rendering `u64`/`i64` values as strings and
//! parsing signed decimal text back, with a proved round trip. Identifiers
//! travel between the two services as decimal strings, so the dedup logic
//! depends on these conversions being exact inverses.

use vstd::prelude::*;

verus! {

/// The character for one decimal digit value.
pub open spec fn char_of_digit(d: int) -> char {
    if d == 0 {
        '0'
    } else if d == 1 {
        '1'
    } else if d == 2 {
        '2'
    } else if d == 3 {
        '3'
    } else if d == 4 {
        '4'
    } else if d == 5 {
        '5'
    } else if d == 6 {
        '6'
    } else if d == 7 {
        '7'
    } else if d == 8 {
        '8'
    } else {
        '9'
    }
}

/// Whether a character is a decimal digit.
pub open spec fn is_digit_char(c: char) -> bool {
    c == '0' || c == '1' || c == '2' || c == '3' || c == '4' || c == '5' || c == '6' || c == '7'
        || c == '8' || c == '9'
}

/// The value of one decimal digit character; unspecified digits count as nine.
pub open spec fn digit_value(c: char) -> int {
    if c == '0' {
        0
    } else if c == '1' {
        1
    } else if c == '2' {
        2
    } else if c == '3' {
        3
    } else if c == '4' {
        4
    } else if c == '5' {
        5
    } else if c == '6' {
        6
    } else if c == '7' {
        7
    } else if c == '8' {
        8
    } else {
        9
    }
}

/// The digits of `n` in base ten, most significant first; empty for zero and
/// for negative numbers.
pub open spec fn dec_digits(n: int) -> Seq<char>
    decreases n,
{
    if n <= 0 {
        Seq::empty()
    } else {
        dec_digits(n / 10).push(char_of_digit(n % 10))
    }
}

/// The decimal rendering of a nonnegative number: its digits, or "0".
pub open spec fn dec_str(n: int) -> Seq<char> {
    if n == 0 {
        seq!['0']
    } else {
        dec_digits(n)
    }
}

/// The decimal rendering of a nonnegative number, zero-padded to two places.
pub open spec fn pad2(n: int) -> Seq<char> {
    if 0 <= n < 10 {
        seq!['0'] + dec_str(n)
    } else {
        dec_str(n)
    }
}

/// The decimal rendering of a signed number.
pub open spec fn int_str(n: int) -> Seq<char> {
    if n < 0 {
        seq!['-'] + dec_str(-n)
    } else {
        dec_str(n)
    }
}

/// Whether every character of `s` is a decimal digit.
pub open spec fn all_digit_chars(s: Seq<char>) -> bool {
    forall|i: int| 0 <= i < s.len() ==> is_digit_char(#[trigger] s[i])
}

/// The number denoted by a sequence of digit characters, most significant
/// first.
pub open spec fn digits_value(s: Seq<char>) -> int
    decreases s.len(),
{
    if s.len() == 0 {
        0
    } else {
        digits_value(s.drop_last()) * 10 + digit_value(s.last())
    }
}

/// What parsing `s` as an `i64` yields: an optional sign followed by at least
/// one digit denotes its value when that value fits the type; anything else
/// fails.
pub open spec fn parsed_i64(s: Seq<char>) -> Option<int> {
    let ds = if s.len() > 0 && (s[0] == '-' || s[0] == '+') {
        s.skip(1)
    } else {
        s
    };
    let neg = s.len() > 0 && s[0] == '-';
    if ds.len() == 0 || !all_digit_chars(ds) {
        None
    } else {
        let v = if neg {
            -digits_value(ds)
        } else {
            digits_value(ds)
        };
        if i64::MIN <= v <= i64::MAX {
            Some(v)
        } else {
            None
        }
    }
}

/// Relies on `String::push`: appends one character to the string.
#[verifier::external_body]
pub(crate) fn push_char(s: &mut String, c: char)
    ensures
        final(s)@ == old(s)@.push(c),
{
    s.push(c);
}

/// The character for one decimal digit value.
fn char_for_digit(d: u64) -> (c: char)
    requires
        d < 10,
    ensures
        c == char_of_digit(d as int),
{
    match d {
        0 => '0',
        1 => '1',
        2 => '2',
        3 => '3',
        4 => '4',
        5 => '5',
        6 => '6',
        7 => '7',
        8 => '8',
        _ => '9',
    }
}

/// Appends the digits of `n` to `out`, most significant first; appends
/// nothing for zero.
pub fn push_dec_digits(n: u64, out: &mut String)
    ensures
        final(out)@ == old(out)@ + dec_digits(n as int),
    decreases n,
{
    if n > 0 {
        push_dec_digits(n / 10, out);
        let c = char_for_digit(n % 10);
        push_char(out, c);
        assert(final(out)@ =~= old(out)@ + dec_digits(n as int));
    } else {
        assert(final(out)@ =~= old(out)@ + dec_digits(0));
    }
}

/// Appends the decimal rendering of `n`, "0" included.
pub fn push_dec(n: u64, out: &mut String)
    ensures
        final(out)@ == old(out)@ + dec_str(n as int),
{
    if n == 0 {
        push_char(out, '0');
        assert(final(out)@ =~= old(out)@ + dec_str(0));
    } else {
        push_dec_digits(n, out);
    }
}

/// Renders an unsigned number in decimal.
pub fn u64_to_string(n: u64) -> (r: String)
    ensures
        r@ == dec_str(n as int),
{
    let mut s = String::new();
    if n == 0 {
        push_char(&mut s, '0');
        assert(s@ =~= dec_str(0));
    } else {
        push_dec_digits(n, &mut s);
        assert(s@ =~= dec_str(n as int));
    }
    s
}

/// Renders a signed number in decimal, with a leading minus sign when
/// negative.
pub fn i64_to_string(n: i64) -> (r: String)
    ensures
        r@ == int_str(n as int),
{
    let mut s = String::new();
    if n < 0 {
        push_char(&mut s, '-');
        let mag: u64 = (-(n as i128)) as u64;
        push_dec_digits(mag, &mut s);
        assert(s@ =~= seq!['-'] + dec_str(-(n as int)));
    } else {
        if n == 0 {
            push_char(&mut s, '0');
            assert(s@ =~= dec_str(0));
        } else {
            push_dec_digits(n as u64, &mut s);
            assert(s@ =~= dec_str(n as int));
        }
    }
    s
}

/// The value of a digit string never decreases as digits are appended.
proof fn lemma_digits_value_nonneg(s: Seq<char>)
    ensures
        digits_value(s) >= 0,
    decreases s.len(),
{
    if s.len() > 0 {
        lemma_digits_value_nonneg(s.drop_last());
    }
}

/// A prefix of a digit string never denotes more than the whole string.
proof fn lemma_digits_value_prefix(s: Seq<char>, i: int)
    requires
        0 <= i <= s.len(),
    ensures
        digits_value(s.take(i)) <= digits_value(s),
    decreases s.len() - i,
{
    if i < s.len() {
        lemma_digits_value_prefix(s, i + 1);
        assert(s.take(i + 1).drop_last() =~= s.take(i));
        lemma_digits_value_nonneg(s.take(i));
    } else {
        assert(s.take(i) =~= s);
    }
}

/// Parses signed decimal text, as `str::parse::<i64>` would.
pub fn parse_i64(s: &str) -> (r: Option<i64>)
    ensures
        match r {
            Some(v) => parsed_i64(s@) == Some(v as int),
            None => parsed_i64(s@) is None,
        },
{
    let len = s.unicode_len();
    if len == 0 {
        return None;
    }
    let first = s.get_char(0);
    let neg = first == '-';
    let start: usize = if neg || first == '+' {
        1
    } else {
        0
    };
    if start == len {
        return None;
    }
    let ghost ds = if start == 1 {
        s@.skip(1)
    } else {
        s@
    };
    let limit: u64 = if neg {
        9223372036854775808
    } else {
        9223372036854775807
    };
    let mut acc: u64 = 0;
    let mut i: usize = start;
    while i < len
        invariant
            start <= i <= len,
            len == s@.len(),
            start == 0 || start == 1,
            s@.len() > 0,
            neg == (s@[0] == '-'),
            (start == 1) == (s@[0] == '-' || s@[0] == '+'),
            ds == if start == 1 {
                s@.skip(1)
            } else {
                s@
            },
            ds.len() == len - start,
            forall|j: int| 0 <= j < i - start ==> is_digit_char(#[trigger] ds[j]),
            acc == digits_value(ds.take(i - start)),
            acc <= limit,
            neg ==> limit == 9223372036854775808,
            !neg ==> limit == 9223372036854775807,
        decreases len - i,
    {
        let c = s.get_char(i);
        assert(ds[i - start] == s@[i as int]);
        let d: u64 = match c {
            '0' => 0,
            '1' => 1,
            '2' => 2,
            '3' => 3,
            '4' => 4,
            '5' => 5,
            '6' => 6,
            '7' => 7,
            '8' => 8,
            '9' => 9,
            _ => {
                assert(!all_digit_chars(ds)) by {
                    assert(!is_digit_char(ds[i - start]));
                }
                return None;
            },
        };
        assert(d == digit_value(ds[i - start]) && is_digit_char(ds[i - start]));
        if acc > (limit - d) / 10 {
            proof {
                lemma_digits_value_prefix(ds, i - start + 1);
                assert(ds.take(i - start + 1).drop_last() =~= ds.take(i - start));
                vstd::arithmetic::div_mod::lemma_fundamental_div_mod((limit - d) as int, 10);
                assert(digits_value(ds) > limit);
            }
            return None;
        }
        proof {
            vstd::arithmetic::div_mod::lemma_fundamental_div_mod((limit - d) as int, 10);
            assert(acc * 10 + d <= limit);
            assert(ds.take(i - start + 1).drop_last() =~= ds.take(i - start));
        }
        acc = acc * 10 + d;
        i = i + 1;
    }
    proof {
        assert(ds.take(len - start) =~= ds);
    }
    if neg {
        let v: i64 = (-(acc as i128)) as i64;
        Some(v)
    } else {
        Some(acc as i64)
    }
}

/// The decimal digits of a nonnegative number denote that number, and are
/// digits throughout.
proof fn lemma_dec_digits_value(n: int)
    requires
        n >= 0,
    ensures
        digits_value(dec_digits(n)) == n,
        all_digit_chars(dec_digits(n)),
        n > 0 ==> dec_digits(n).len() >= 1 && is_digit_char(dec_digits(n)[0]),
    decreases n,
{
    if n > 0 {
        lemma_dec_digits_value(n / 10);
        let prefix = dec_digits(n / 10);
        let whole = dec_digits(n);
        assert(whole.drop_last() =~= prefix);
        assert(digits_value(whole) == (n / 10) * 10 + (n % 10));
        if prefix.len() >= 1 {
            assert(whole[0] == prefix[0]);
        }
    }
}

/// Rendering a signed number and parsing the text back yields the same
/// number: the round trip on which identifier-based dedup rests.
pub proof fn lemma_int_str_roundtrip(n: int)
    requires
        i64::MIN <= n <= i64::MAX,
    ensures
        parsed_i64(int_str(n)) == Some(n),
{
    if n < 0 {
        lemma_dec_digits_value(-n);
        let s = int_str(n);
        assert(s[0] == '-');
        assert(s.skip(1) =~= dec_str(-n));
    } else if n == 0 {
        let s = int_str(0);
        assert(s[0] == '0');
        assert(s.skip(1) =~= Seq::<char>::empty());
        assert(digits_value(seq!['0']) == 0) by {
            assert(seq!['0'].drop_last() =~= Seq::<char>::empty());
            assert(digits_value(Seq::<char>::empty()) == 0);
        }
    } else {
        lemma_dec_digits_value(n);
    }
}

} // verus!
